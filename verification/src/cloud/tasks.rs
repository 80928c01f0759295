//! The list of generation tasks and their results.

use crate::cloud::catalog::{label_of, parameter_label};
use crate::cloud::configuration::{
    server_task_snapshot, snapshot_of, SnapshotView, TaskInputSnapshot,
};
use crate::cloud::picker::{here, is_here};
use crate::cloud::requests::{items, items_of};
use crate::cloud::rows::{blank, blank_item, row_views, CloudItem, ItemRow};
use crate::cloud::steps::{fetch, fetching, one, step_views, then_do, Panel, Step, StepView};
use crate::collections::{TextMap, TextSet};
use crate::json::{models, Json, JsonModel};
use crate::lists::{any, any_text, find_text, first_where, text_is};
use crate::sort::{arrange, key_views, order_of, KeyView, SortKey};
use crate::text::{
    cat, cat3, decimal, join, joined, minutes_and_seconds, opt, replace_char, same, to_decimal,
    to_minutes_and_seconds, to_two_digits, two_digits, views, with_replaced,
};
use vstd::prelude::*;
use vstd::string::*;

verus! {

/// Results that are used together when all of them are on this machine.
pub struct ResultBatch {
    pub intent: String,
    pub ids: Vec<String>,
}

pub struct ResultBatchView {
    pub intent: Seq<char>,
    pub ids: Seq<Seq<char>>,
}

impl View for ResultBatch {
    type V = ResultBatchView;

    open spec fn view(&self) -> ResultBatchView {
        ResultBatchView {
            intent: self.intent@,
            ids: views(self.ids@),
        }
    }
}

/// The view of an optional batch of results.
pub open spec fn opt_results(b: Option<ResultBatch>) -> Option<ResultBatchView> {
    match b {
        Some(batch) => Some(batch@),
        None => None,
    }
}

/// The generation tasks and what is known of their results.
pub struct TaskList {
    pub tasks: Vec<Json>,
    pub selected: TextSet,
    pub selection_mode: bool,
    /// The place of the task that is shown large.
    pub selected_task: i32,
    pub preview_open: bool,
    /// The files that results and team files were brought to.
    pub local: TextMap<String>,
    /// What tasks of this machine were made from.
    pub snapshots: TextMap<TaskInputSnapshot>,
    pub batch: Option<ResultBatch>,
    /// The results whose download has been tried.
    pub attempts: TextSet,
    /// The results that are on the way to become references.
    pub references: TextSet,
    pub pending_delete: Vec<String>,
    pub folder: String,
}

pub struct TaskListView {
    pub tasks: Seq<JsonModel>,
    pub selected: Set<Seq<char>>,
    pub selection_mode: bool,
    pub selected_task: i32,
    pub preview_open: bool,
    pub local: Map<Seq<char>, Seq<char>>,
    pub snapshots: Map<Seq<char>, SnapshotView>,
    pub batch: Option<ResultBatchView>,
    pub attempts: Set<Seq<char>>,
    pub references: Set<Seq<char>>,
    pub pending_delete: Seq<Seq<char>>,
    pub folder: Seq<char>,
}

impl View for TaskList {
    type V = TaskListView;

    open spec fn view(&self) -> TaskListView {
        TaskListView {
            tasks: models(self.tasks@),
            selected: self.selected@,
            selection_mode: self.selection_mode,
            selected_task: self.selected_task,
            preview_open: self.preview_open,
            local: self.local@,
            snapshots: self.snapshots@,
            batch: opt_results(self.batch),
            attempts: self.attempts@,
            references: self.references@,
            pending_delete: views(self.pending_delete@),
            folder: self.folder@,
        }
    }
}

/// What the state of a finished task says.
pub open spec fn finished_text(v: JsonModel) -> Seq<char> {
    let request = v.at("request"@);
    if v.text("kind"@) == "video"@ {
        let resolution = request.text("resolution"@);
        match request.at("duration"@).as_u64() {
            Some(seconds) => if resolution.len() > 0 {
                minutes_and_seconds(seconds as nat) + " · "@ + resolution
            } else {
                minutes_and_seconds(seconds as nat)
            },
            None => if resolution.len() > 0 {
                resolution
            } else {
                "已完成"@
            },
        }
    } else {
        let size = request.text("size"@);
        if size.len() == 0 {
            "已完成"@
        } else {
            with_replaced(size, 'x', " × "@)
        }
    }
}

/// What the state of a task says.
pub open spec fn status_text(v: JsonModel) -> Seq<char> {
    let status = v.text("status"@);
    if status == "queued"@ {
        "排队中"@
    } else if status == "submitting"@ || status == "provider_accepted"@ || status
        == "processing"@ {
        "生成中"@
    } else if status == "validating"@ {
        "保存结果"@
    } else if status == "succeeded"@ {
        finished_text(v)
    } else if status == "failed"@ {
        "生成失败"@
    } else {
        "待核实"@
    }
}

/// The row of a task by itself.
pub open spec fn item_of(v: JsonModel) -> ItemRow {
    let status = v.text("status"@);
    let message = v.at("error"@).text("message"@);
    ItemRow {
        id: v.text("id"@),
        name: v.text("prompt"@),
        detail: if status == "failed"@ {
            if message.len() == 0 {
                "未返回失败原因"@
            } else {
                message
            }
        } else {
            v.text("model"@)
        },
        status: status_text(v),
        failed: status == "failed"@,
        kind: v.text("kind"@),
        ready: status == "succeeded"@,
        ..blank()
    }
}

fn finished(v: &Json) -> (r: String)
    ensures
        r@ == finished_text(v@),
{
    let request: Json = v.at("request");
    if v.text_is("kind", "video") {
        let resolution: String = request.text("resolution");
        match request.at("duration").as_u64() {
            Some(seconds) => {
                let time: String = to_minutes_and_seconds(seconds);
                if resolution.as_str().is_empty() {
                    time
                } else {
                    cat3(time.as_str(), " · ", resolution.as_str())
                }
            },
            None => if resolution.as_str().is_empty() {
                "已完成".to_owned()
            } else {
                resolution
            },
        }
    } else {
        let size: String = request.text("size");
        if size.as_str().is_empty() {
            "已完成".to_owned()
        } else {
            replace_char(size.as_str(), 'x', " × ")
        }
    }
}

fn tell_status(v: &Json) -> (r: String)
    ensures
        r@ == status_text(v@),
{
    let status: String = v.text("status");
    let s: &str = status.as_str();
    if same(s, "queued") {
        "排队中".to_owned()
    } else if same(s, "submitting") || same(s, "provider_accepted") || same(s, "processing") {
        "生成中".to_owned()
    } else if same(s, "validating") {
        "保存结果".to_owned()
    } else if same(s, "succeeded") {
        finished(v)
    } else if same(s, "failed") {
        "生成失败".to_owned()
    } else {
        "待核实".to_owned()
    }
}

/// The row of a task by itself.
pub fn task_item(v: &Json) -> (r: CloudItem)
    ensures
        r@ == item_of(v@),
{
    let failed: bool = v.text_is("status", "failed");
    let detail: String = if failed {
        let message: String = v.at("error").text("message");
        if message.as_str().is_empty() {
            "未返回失败原因".to_owned()
        } else {
            message
        }
    } else {
        v.text("model")
    };
    CloudItem {
        id: v.text("id"),
        name: v.text("prompt"),
        detail,
        status: tell_status(v),
        failed,
        kind: v.text("kind"),
        ready: v.text_is("status", "succeeded"),
        ..blank_item()
    }
}

/// What a task was made from, as far as it is known: on this machine, or from
/// what the service tells.
pub open spec fn inputs_of(
    snapshots: Map<Seq<char>, SnapshotView>,
    v: JsonModel,
) -> Option<SnapshotView> {
    let id = v.text("id"@);
    if snapshots.contains_key(id) {
        Some(snapshots[id])
    } else {
        match snapshot_of(v) {
            Ok(s) => Some(s),
            Err(_) => None,
        }
    }
}

/// Whether it is known what a task was made from, and the time of a video that
/// was asked for.
fn known_inputs(list: &TaskList, v: &Json) -> (r: (bool, Option<Json>))
    ensures
        r.0 == (inputs_of(list@.snapshots, v@) is Some),
        match r.1 {
            Some(d) => inputs_of(list@.snapshots, v@) matches Some(s) && s.parameters.get(
                "duration"@,
            ) == Some(d@),
            None => inputs_of(list@.snapshots, v@) matches Some(s) ==> s.parameters.get(
                "duration"@,
            ) is None,
        },
{
    let id: String = v.text("id");
    if let Some(s) = list.snapshots.get(id.as_str()) {
        return (
            true,
            match s.parameters.get("duration") {
                Some(d) => Some(d.copy()),
                None => None,
            },
        );
    }
    match server_task_snapshot(v) {
        Ok(s) => (
            true,
            match s.parameters.get("duration") {
                Some(d) => Some(d.copy()),
                None => None,
            },
        ),
        Err(_) => (false, None),
    }
}

/// The row of a task in the list.
pub open spec fn task_row(list: TaskListView, present: Set<Seq<char>>, v: JsonModel) -> ItemRow {
    let id = v.text("id"@);
    let kind = v.text("kind"@);
    let base = item_of(v);
    let inputs = inputs_of(list.snapshots, v);
    let found = is_here(list.local, present, id);
    ItemRow {
        selected: list.selected.contains(id),
        refillable: inputs is Some,
        detail: if kind == "video"@ && inputs is Some && inputs->0.parameters.get(
            "duration"@,
        ) is Some {
            label_of("duration"@, inputs->0.parameters.get("duration"@)->0) + " · "@ + base.detail
        } else {
            base.detail
        },
        local: found,
        ready: base.ready || found,
        status: if found && v.text("status"@) == "expired"@ {
            "已保存到本机"@
        } else {
            base.status
        },
        preview: if list.local.contains_key(id) && (kind == "image"@ || kind == "video"@) {
            list.local[id]
        } else {
            ""@
        },
        ..base
    }
}

fn make_row(list: &TaskList, present: &TextSet, v: &Json) -> (r: CloudItem)
    ensures
        r@ == task_row(list@, present@, v@),
{
    let id: String = v.text("id");
    let mut item: CloudItem = task_item(v);
    item.selected = list.selected.has(id.as_str());
    let (known, duration) = known_inputs(list, v);
    item.refillable = known;
    let video: bool = v.text_is("kind", "video");
    if video {
        if let Some(d) = duration {
            item.detail = cat3(
                parameter_label("duration", &d).as_str(),
                " · ",
                item.detail.as_str(),
            );
        }
    }
    if let Some(path) = list.local.get(id.as_str()) {
        if video || v.text_is("kind", "image") {
            item.preview = path.clone();
        }
        if present.has(path.as_str()) {
            item.local = true;
            item.ready = true;
            if v.text_is("status", "expired") {
                item.status = "已保存到本机".to_owned();
            }
        }
    }
    item
}

pub open spec fn task_rows(list: TaskListView, present: Set<Seq<char>>) -> Seq<ItemRow> {
    Seq::new(list.tasks.len(), |i: int| task_row(list, present, list.tasks[i]))
}

/// The rows of the tasks.
pub fn render_tasks(list: &TaskList, present: &TextSet) -> (r: Vec<CloudItem>)
    ensures
        row_views(r@) == task_rows(list@, present@),
{
    let mut out: Vec<CloudItem> = Vec::new();
    let mut i: usize = 0;
    while i < list.tasks.len()
        invariant
            i <= list.tasks.len(),
            out@.len() == i,
            forall|j: int|
                0 <= j < i ==> (#[trigger] out@[j])@ == task_row(list@, present@, list@.tasks[j]),
        decreases list.tasks.len() - i,
    {
        out.push(make_row(list, present, &list.tasks[i]));
        i = i + 1;
    }
    proof {
        assert(row_views(out@) =~= task_rows(list@, present@));
    }
    out
}

/// The batch that a task belongs to; a task without one is its own batch.
pub open spec fn batch_key(v: JsonModel) -> Seq<char> {
    if v.text("batch_id"@).len() == 0 {
        v.text("id"@)
    } else {
        v.text("batch_id"@)
    }
}

fn key_of_batch(v: &Json) -> (r: String)
    ensures
        r@ == batch_key(v@),
{
    let id: String = v.text("batch_id");
    if id.as_str().is_empty() {
        v.text("id")
    } else {
        id
    }
}

/// The batches of tasks, in the order of their first tasks.
pub open spec fn batch_keys(tasks: Seq<JsonModel>) -> Seq<Seq<char>>
    decreases tasks.len(),
{
    if tasks.len() == 0 {
        Seq::empty()
    } else {
        let before = batch_keys(tasks.drop_last());
        if before.contains(batch_key(tasks.last())) {
            before
        } else {
            before.push(batch_key(tasks.last()))
        }
    }
}

/// The places of the tasks of a batch.
pub open spec fn batch_members(tasks: Seq<JsonModel>, key: Seq<char>) -> Seq<usize>
    decreases tasks.len(),
{
    if tasks.len() == 0 {
        Seq::empty()
    } else {
        let before = batch_members(tasks.drop_last(), key);
        if batch_key(tasks.last()) == key {
            before.push((tasks.len() - 1) as usize)
        } else {
            before
        }
    }
}

/// What the tasks of a batch are ordered by.
pub open spec fn member_keys(tasks: Seq<JsonModel>, members: Seq<usize>) -> Seq<KeyView> {
    Seq::new(members.len(), |i: int| member_key(tasks[members[i] as int]))
}

pub open spec fn member_key(v: JsonModel) -> KeyView {
    KeyView {
        group: match v.at("batch_index"@).as_i64() {
            Some(n) => n,
            None => 0,
        },
        name: ""@,
        time: 0,
        id: ""@,
    }
}

/// The places of the tasks of a batch, in the order of the batch.
pub open spec fn ordered_members(tasks: Seq<JsonModel>, key: Seq<char>) -> Seq<usize> {
    let members = batch_members(tasks, key);
    let order = order_of(member_keys(tasks, members));
    Seq::new(order.len(), |i: int| members[order[i] as int])
}

/// How many of the places satisfy a condition.
pub open spec fn count_of(members: Seq<usize>, p: spec_fn(usize) -> bool) -> nat
    decreases members.len(),
{
    if members.len() == 0 {
        0
    } else {
        count_of(members.drop_last(), p) + if p(members.last()) {
            1nat
        } else {
            0nat
        }
    }
}

/// A task that has succeeded, or whose result is on this machine.
pub open spec fn is_done(tasks: Seq<JsonModel>, rows: Seq<ItemRow>) -> spec_fn(usize) -> bool {
    |i: usize| tasks[i as int].text("status"@) == "succeeded"@ || rows[i as int].ready
}

pub open spec fn is_failed(tasks: Seq<JsonModel>) -> spec_fn(usize) -> bool {
    |i: usize| tasks[i as int].text("status"@) == "failed"@
}

/// The parts of the line on a batch that is complete.
pub open spec fn complete_parts(first: JsonModel, n: nat, unit: Seq<char>) -> Seq<Seq<char>> {
    let ratio = first.at("request"@).text("aspect_ratio"@);
    let size = first.at("request"@).text("size"@);
    let p0 = seq![decimal(n) + " "@ + unit];
    let p1 = if ratio.len() > 0 {
        p0.push(ratio)
    } else {
        p0
    };
    if size.len() > 0 {
        p1.push(with_replaced(size, 'x', " × "@))
    } else {
        p1
    }
}

/// The line on a batch.
pub open spec fn batch_summary(first: JsonModel, n: nat, done: nat, failed: nat) -> Seq<char> {
    let unit = if first.text("kind"@) == "video"@ {
        "条"@
    } else {
        "张"@
    };
    if failed == 0 && done == n {
        joined(complete_parts(first, n, unit), " · "@)
    } else if done + failed == n {
        "完成 "@ + decimal(done) + "/"@ + decimal(n) + " · "@ + decimal(failed) + " "@ + unit
            + "失败"@
    } else {
        decimal(n) + " "@ + unit + " · 生成中"@
    }
}

fn summarise(first: &Json, n: usize, done: usize, failed: usize) -> (r: String)
    ensures
        r@ == batch_summary(first@, n as nat, done as nat, failed as nat),
{
    let unit: &'static str = if first.text_is("kind", "video") {
        "条"
    } else {
        "张"
    };
    let total: String = to_decimal(n as u64);
    if failed == 0 && done == n {
        let ratio: String = first.at("request").text("aspect_ratio");
        let size: String = first.at("request").text("size");
        let mut parts: Vec<String> = Vec::new();
        parts.push(cat3(total.as_str(), " ", unit));
        if !ratio.as_str().is_empty() {
            parts.push(ratio);
        }
        if !size.as_str().is_empty() {
            parts.push(replace_char(size.as_str(), 'x', " × "));
        }
        proof {
            assert(views(parts@) =~= complete_parts(first@, n as nat, unit@));
        }
        return join(&parts, " · ");
    }
    if (done as u128) + (failed as u128) == n as u128 {
        let head: String = cat3("完成 ", to_decimal(done as u64).as_str(), "/");
        let middle: String = cat3(head.as_str(), total.as_str(), " · ");
        let tail: String = cat3(to_decimal(failed as u64).as_str(), " ", unit);
        let r: String = cat3(middle.as_str(), tail.as_str(), "失败");
        proof {
            assert(r@ =~= batch_summary(first@, n as nat, done as nat, failed as nat));
        }
        return r;
    }
    let r: String = cat(cat3(total.as_str(), " ", unit).as_str(), " · 生成中");
    proof {
        assert(r@ =~= batch_summary(first@, n as nat, done as nat, failed as nat));
    }
    r
}

/// When a batch was made, in the time of this machine.
pub struct LocalStamp {
    pub today: bool,
    pub month: u64,
    pub day: u64,
    pub hour: u64,
    pub minute: u64,
}

/// How the time of a batch is shown.
pub open spec fn label_of_stamp(stamp: Option<LocalStamp>) -> Seq<char> {
    match stamp {
        Some(t) => {
            let clock = two_digits(t.hour as nat) + ":"@ + two_digits(t.minute as nat);
            if t.today {
                "今天 "@ + clock
            } else {
                two_digits(t.month as nat) + "-"@ + two_digits(t.day as nat) + " "@ + clock
            }
        },
        None => "最近"@,
    }
}

pub fn batch_label(stamp: &Option<LocalStamp>) -> (r: String)
    ensures
        r@ == label_of_stamp(*stamp),
{
    match stamp {
        Some(t) => {
            let clock: String = cat3(
                to_two_digits(t.hour).as_str(),
                ":",
                to_two_digits(t.minute).as_str(),
            );
            if t.today {
                cat("今天 ", clock.as_str())
            } else {
                let date: String = cat3(
                    to_two_digits(t.month).as_str(),
                    "-",
                    to_two_digits(t.day).as_str(),
                );
                cat3(date.as_str(), " ", clock.as_str())
            }
        },
        None => "最近".to_owned(),
    }
}

/// A batch of tasks that were sent together.
pub struct GenerationBatch {
    pub id: String,
    /// When the batch was made, in seconds.
    pub created: Option<i64>,
    pub summary: String,
    pub items: Vec<CloudItem>,
}

pub struct GenerationBatchView {
    pub id: Seq<char>,
    pub created: Option<i64>,
    pub summary: Seq<char>,
    pub items: Seq<ItemRow>,
}

impl View for GenerationBatch {
    type V = GenerationBatchView;

    open spec fn view(&self) -> GenerationBatchView {
        GenerationBatchView {
            id: self.id@,
            created: self.created,
            summary: self.summary@,
            items: row_views(self.items@),
        }
    }
}

/// The batch of a key.
pub open spec fn batch_of(
    tasks: Seq<JsonModel>,
    rows: Seq<ItemRow>,
    key: Seq<char>,
) -> GenerationBatchView {
    let members = ordered_members(tasks, key);
    let first = tasks[members[0] as int];
    GenerationBatchView {
        id: key,
        created: first.at("created_at"@).as_i64(),
        summary: batch_summary(
            first,
            members.len(),
            count_of(members, is_done(tasks, rows)),
            count_of(members, is_failed(tasks)),
        ),
        items: Seq::new(members.len(), |i: int| rows[members[i] as int]),
    }
}

pub open spec fn batches_of(tasks: Seq<JsonModel>, rows: Seq<ItemRow>) -> Seq<
    GenerationBatchView,
> {
    Seq::new(batch_keys(tasks).len(), |i: int| batch_of(tasks, rows, batch_keys(tasks)[i]))
}

fn list_keys(tasks: &Vec<Json>) -> (r: Vec<String>)
    ensures
        views(r@) == batch_keys(models(tasks@)),
{
    let ghost m = models(tasks@);
    let mut out: Vec<String> = Vec::new();
    let mut i: usize = 0;
    proof {
        assert(m.take(0) =~= Seq::empty());
        assert(views(out@) =~= Seq::empty());
    }
    while i < tasks.len()
        invariant
            i <= tasks.len(),
            m == models(tasks@),
            views(out@) == batch_keys(m.take(i as int)),
        decreases tasks.len() - i,
    {
        proof {
            assert(m.take(i + 1).drop_last() =~= m.take(i as int));
            assert(m.take(i + 1).last() == m[i as int]);
        }
        let key: String = key_of_batch(&tasks[i]);
        if !crate::text::has_text(&out, key.as_str()) {
            let ghost before = out@;
            let ghost view = key@;
            out.push(key);
            proof {
                assert(views(out@) =~= views(before).push(view));
            }
        }
        i = i + 1;
    }
    proof {
        assert(m.take(m.len() as int) =~= m);
    }
    out
}

fn list_members(tasks: &Vec<Json>, key: &str) -> (r: Vec<usize>)
    ensures
        r@ == batch_members(models(tasks@), key@),
        forall|i: int| 0 <= i < r@.len() ==> #[trigger] r@[i] < tasks.len(),
{
    let ghost m = models(tasks@);
    let mut out: Vec<usize> = Vec::new();
    let mut i: usize = 0;
    proof {
        assert(m.take(0) =~= Seq::empty());
    }
    while i < tasks.len()
        invariant
            i <= tasks.len(),
            m == models(tasks@),
            out@ == batch_members(m.take(i as int), key@),
            forall|j: int| 0 <= j < out@.len() ==> #[trigger] out@[j] < i,
        decreases tasks.len() - i,
    {
        proof {
            assert(m.take(i + 1).drop_last() =~= m.take(i as int));
            assert(m.take(i + 1).last() == m[i as int]);
        }
        let this: String = key_of_batch(&tasks[i]);
        if same(this.as_str(), key) {
            out.push(i);
        }
        i = i + 1;
    }
    proof {
        assert(m.take(m.len() as int) =~= m);
    }
    out
}

fn order_members(tasks: &Vec<Json>, key: &str) -> (r: Vec<usize>)
    ensures
        r@ == ordered_members(models(tasks@), key@),
        r@.len() == batch_members(models(tasks@), key@).len(),
        forall|i: int| 0 <= i < r@.len() ==> #[trigger] r@[i] < tasks.len(),
{
    let members: Vec<usize> = list_members(tasks, key);
    let ghost m = models(tasks@);
    let mut keys: Vec<SortKey> = Vec::new();
    let mut i: usize = 0;
    while i < members.len()
        invariant
            i <= members.len(),
            m == models(tasks@),
            forall|j: int| 0 <= j < members@.len() ==> #[trigger] members@[j] < tasks.len(),
            keys@.len() == i,
            forall|j: int|
                0 <= j < i ==> (#[trigger] keys@[j])@ == member_key(m[members@[j] as int]),
        decreases members.len() - i,
    {
        let group: i64 = match tasks[members[i]].at("batch_index").as_i64() {
            Some(n) => n,
            None => 0,
        };
        proof {
            assert(m[members@[i as int] as int] == tasks@[members@[i as int] as int]@);
        }
        keys.push(SortKey { group, name: "".to_owned(), time: 0, id: "".to_owned() });
        i = i + 1;
    }
    proof {
        assert(key_views(keys@) =~= member_keys(m, members@));
    }
    let order: Vec<usize> = arrange(&keys);
    let mut out: Vec<usize> = Vec::new();
    let mut k: usize = 0;
    while k < order.len()
        invariant
            k <= order.len(),
            order@.len() == members@.len(),
            forall|j: int| 0 <= j < order@.len() ==> #[trigger] order@[j] < members@.len(),
            forall|j: int| 0 <= j < members@.len() ==> #[trigger] members@[j] < tasks.len(),
            out@.len() == k,
            forall|j: int| 0 <= j < k ==> #[trigger] out@[j] == members@[order@[j] as int],
            forall|j: int| 0 <= j < k ==> #[trigger] out@[j] < tasks.len(),
        decreases order.len() - k,
    {
        out.push(members[order[k]]);
        k = k + 1;
    }
    proof {
        assert(out@ =~= ordered_members(m, key@));
    }
    out
}

fn count_done(tasks: &Vec<Json>, rows: &Vec<CloudItem>, members: &Vec<usize>) -> (r: usize)
    requires
        rows.len() == tasks.len(),
        forall|i: int| 0 <= i < members@.len() ==> #[trigger] members@[i] < tasks.len(),
    ensures
        r == count_of(members@, is_done(models(tasks@), row_views(rows@))),
{
    let ghost p = is_done(models(tasks@), row_views(rows@));
    let mut n: usize = 0;
    let mut i: usize = 0;
    proof {
        assert(members@.take(0) =~= Seq::empty());
    }
    while i < members.len()
        invariant
            n <= i <= members.len(),
            rows.len() == tasks.len(),
            forall|j: int| 0 <= j < members@.len() ==> #[trigger] members@[j] < tasks.len(),
            p == is_done(models(tasks@), row_views(rows@)),
            n == count_of(members@.take(i as int), p),
        decreases members.len() - i,
    {
        let at: usize = members[i];
        proof {
            assert(members@.take(i + 1).drop_last() =~= members@.take(i as int));
            assert(members@.take(i + 1).last() == at);
            assert(models(tasks@)[at as int] == tasks@[at as int]@);
            assert(row_views(rows@)[at as int] == rows@[at as int]@);
        }
        if tasks[at].text_is("status", "succeeded") || rows[at].ready {
            n = n + 1;
        }
        i = i + 1;
    }
    proof {
        assert(members@.take(members@.len() as int) =~= members@);
    }
    n
}

fn count_failed(tasks: &Vec<Json>, members: &Vec<usize>) -> (r: usize)
    requires
        forall|i: int| 0 <= i < members@.len() ==> #[trigger] members@[i] < tasks.len(),
    ensures
        r == count_of(members@, is_failed(models(tasks@))),
{
    let ghost p = is_failed(models(tasks@));
    let mut n: usize = 0;
    let mut i: usize = 0;
    proof {
        assert(members@.take(0) =~= Seq::empty());
    }
    while i < members.len()
        invariant
            n <= i <= members.len(),
            forall|j: int| 0 <= j < members@.len() ==> #[trigger] members@[j] < tasks.len(),
            p == is_failed(models(tasks@)),
            n == count_of(members@.take(i as int), p),
        decreases members.len() - i,
    {
        let at: usize = members[i];
        proof {
            assert(members@.take(i + 1).drop_last() =~= members@.take(i as int));
            assert(members@.take(i + 1).last() == at);
            assert(models(tasks@)[at as int] == tasks@[at as int]@);
        }
        if tasks[at].text_is("status", "failed") {
            n = n + 1;
        }
        i = i + 1;
    }
    proof {
        assert(members@.take(members@.len() as int) =~= members@);
    }
    n
}

/// A batch that is listed has a task.
proof fn listed_batch_has_members(tasks: Seq<JsonModel>, key: Seq<char>)
    requires
        batch_keys(tasks).contains(key),
    ensures
        batch_members(tasks, key).len() > 0,
    decreases tasks.len(),
{
    if tasks.len() > 0 {
        let before = batch_keys(tasks.drop_last());
        if before.contains(key) {
            listed_batch_has_members(tasks.drop_last(), key);
        } else {
            assert(batch_keys(tasks) == before.push(batch_key(tasks.last())));
            let k = choose|k: int| 0 <= k < batch_keys(tasks).len() && batch_keys(tasks)[k] == key;
            if k < before.len() {
                assert(before[k] == key);
            }
        }
    }
}

fn make_batch(tasks: &Vec<Json>, rows: &Vec<CloudItem>, key: &str) -> (r: GenerationBatch)
    requires
        rows.len() == tasks.len(),
        batch_members(models(tasks@), key@).len() > 0,
    ensures
        r@ == batch_of(models(tasks@), row_views(rows@), key@),
{
    let members: Vec<usize> = order_members(tasks, key);
    let first: &Json = &tasks[members[0]];
    proof {
        assert(models(tasks@)[members@[0] as int] == first@);
    }
    let done: usize = count_done(tasks, rows, &members);
    let failed: usize = count_failed(tasks, &members);
    let mut shown: Vec<CloudItem> = Vec::new();
    let mut i: usize = 0;
    while i < members.len()
        invariant
            i <= members.len(),
            rows.len() == tasks.len(),
            forall|j: int| 0 <= j < members@.len() ==> #[trigger] members@[j] < tasks.len(),
            shown@.len() == i,
            forall|j: int|
                0 <= j < i ==> (#[trigger] shown@[j])@ == row_views(rows@)[members@[j] as int],
        decreases members.len() - i,
    {
        proof {
            assert(row_views(rows@)[members@[i as int] as int] == rows@[members@[i as int] as int]@);
        }
        shown.push(rows[members[i]].copy());
        i = i + 1;
    }
    let r: GenerationBatch = GenerationBatch {
        id: key.to_owned(),
        created: first.at("created_at").as_i64(),
        summary: summarise(first, members.len(), done, failed),
        items: shown,
    };
    proof {
        assert(r@.items =~= batch_of(models(tasks@), row_views(rows@), key@).items);
    }
    r
}

/// The batches of the tasks.
pub fn render_batches(tasks: &Vec<Json>, rows: &Vec<CloudItem>) -> (r: Vec<GenerationBatch>)
    requires
        rows.len() == tasks.len(),
    ensures
        r@.len() == batch_keys(models(tasks@)).len(),
        forall|i: int|
            0 <= i < r@.len() ==> (#[trigger] r@[i])@ == batches_of(
                models(tasks@),
                row_views(rows@),
            )[i],
{
    let keys: Vec<String> = list_keys(tasks);
    let mut out: Vec<GenerationBatch> = Vec::new();
    let mut i: usize = 0;
    while i < keys.len()
        invariant
            i <= keys.len(),
            rows.len() == tasks.len(),
            views(keys@) == batch_keys(models(tasks@)),
            out@.len() == i,
            forall|j: int|
                0 <= j < i ==> (#[trigger] out@[j])@ == batches_of(
                    models(tasks@),
                    row_views(rows@),
                )[j],
        decreases keys.len() - i,
    {
        proof {
            assert(views(keys@)[i as int] == keys@[i as int]@);
            assert(batch_keys(models(tasks@)).contains(keys@[i as int]@));
            listed_batch_has_members(models(tasks@), keys@[i as int]@);
        }
        out.push(make_batch(tasks, rows, keys[i].as_str()));
        i = i + 1;
    }
    out
}

/// The identity of the task at a place.
pub open spec fn task_id_at(tasks: Seq<JsonModel>, selected: i32) -> Option<Seq<char>> {
    if 0 <= selected < tasks.len() && tasks[selected as int].text("id"@).len() > 0 {
        Some(tasks[selected as int].text("id"@))
    } else {
        None
    }
}

pub fn selected_task_id(tasks: &Vec<Json>, selected: i32) -> (r: Option<String>)
    ensures
        opt(r) == task_id_at(models(tasks@), selected),
{
    if selected < 0 || selected as usize >= tasks.len() {
        return None;
    }
    let id: String = tasks[selected as usize].text("id");
    if id.as_str().is_empty() {
        None
    } else {
        Some(id)
    }
}

/// The place of a task, where it can be shown.
pub open spec fn task_place(tasks: Seq<JsonModel>, id: Seq<char>) -> Option<i32> {
    match first_where(tasks, text_is("id"@, id)) {
        Some(i) => if i <= i32::MAX {
            Some(i as i32)
        } else {
            None
        },
        None => None,
    }
}

pub fn selected_task_index(tasks: &Vec<Json>, id: &str) -> (r: Option<i32>)
    ensures
        r == task_place(models(tasks@), id@),
{
    match find_text(tasks, "id", id) {
        Some(i) => if i <= i32::MAX as usize {
            Some(i as i32)
        } else {
            None
        },
        None => None,
    }
}

/// Whether the result of a task can be fetched.
pub open spec fn can_fetch(task: JsonModel) -> bool {
    task.list("outputs"@).len() > 0 && task.list("outputs"@)[0].text("download_url"@).len() > 0
}

pub fn task_has_downloadable_output(task: &Json) -> (r: bool)
    ensures
        r == can_fetch(task@),
{
    let outputs: Vec<Json> = task.list("outputs");
    if outputs.len() == 0 {
        return false;
    }
    proof {
        assert(models(outputs@)[0] == outputs@[0]@);
    }
    let url: String = outputs[0].text("download_url");
    !url.as_str().is_empty()
}

/// Where the result of a task comes from when it is used as a reference:
/// `Ok(None)` means that it has to be fetched.
pub open spec fn reference_source(task: JsonModel, file: Option<Seq<char>>) -> Result<
    Option<Seq<char>>,
    Seq<char>,
> {
    let kind = task.text("kind"@);
    if kind != "image"@ && kind != "video"@ {
        Err("该生成结果类型不能作为参考素材"@)
    } else if file is Some {
        Ok(file)
    } else if task.text("status"@) != "succeeded"@ {
        Err("该生成结果尚未完成，且本机结果文件不可用"@)
    } else if !can_fetch(task) {
        Err("该生成结果文件不可用，请刷新后重试"@)
    } else {
        Ok(None)
    }
}

/// Where the result of a task comes from when it is used as a reference;
/// `file` is its file on this machine, where it is there.
pub fn task_reference_source(task: &Json, file: Option<String>) -> (r: Result<
    Option<String>,
    String,
>)
    ensures
        match r {
            Ok(path) => reference_source(task@, opt(file)) == Ok::<Option<Seq<char>>, Seq<char>>(
                opt(path),
            ),
            Err(e) => reference_source(task@, opt(file)) == Err::<Option<Seq<char>>, Seq<char>>(
                e@,
            ),
        },
{
    if !task.text_is("kind", "image") && !task.text_is("kind", "video") {
        return Err("该生成结果类型不能作为参考素材".to_owned());
    }
    if file.is_some() {
        return Ok(file);
    }
    if !task.text_is("status", "succeeded") {
        return Err("该生成结果尚未完成，且本机结果文件不可用".to_owned());
    }
    if !task_has_downloadable_output(task) {
        return Err("该生成结果文件不可用，请刷新后重试".to_owned());
    }
    Ok(None)
}

/// The identities of `ids` that `list` has.
pub open spec fn known_ids(ids: Set<Seq<char>>, list: Seq<JsonModel>) -> Set<Seq<char>> {
    ids.filter(|id: Seq<char>| any(list, text_is("id"@, id)))
}

/// Drops the identities that `list` does not have.
pub fn retain_known(ids: &mut TextSet, list: &Vec<Json>)
    ensures
        final(ids)@ == known_ids(old(ids)@, models(list@)),
{
    let ghost before = ids@;
    let mut out: TextSet = TextSet::new();
    let mut i: usize = 0;
    {
        let texts: &Vec<String> = ids.texts();
        while i < texts.len()
            invariant
                i <= texts.len(),
                views(texts@).to_set() == before,
                forall|s: Seq<char>|
                    #[trigger] out@.contains(s) <==> (views(texts@).take(i as int).contains(s)
                        && any(models(list@), text_is("id"@, s))),
            decreases texts.len() - i,
        {
            let ghost all_ids = views(texts@);
            let id: &str = texts[i].as_str();
            let ghost prior = out@;
            if any_text(list, "id", id) {
                out.insert(id);
            }
            proof {
                let head = all_ids.take(i as int);
                let next = all_ids.take(i + 1);
                assert(next =~= head.push(id@));
                assert forall|s: Seq<char>| #[trigger] out@.contains(s) <==> (next.contains(s)
                    && any(models(list@), text_is("id"@, s))) by {
                    if next.contains(s) {
                        let k = choose|k: int| 0 <= k < next.len() && next[k] == s;
                        if k < i {
                            assert(head[k] == s);
                        }
                    }
                    if head.contains(s) {
                        let k = choose|k: int| 0 <= k < head.len() && head[k] == s;
                        assert(next[k] == s);
                    }
                    assert(next[i as int] == id@);
                    assert(prior.contains(s) || !prior.contains(s));
                }
            }
            i = i + 1;
        }
        proof {
            let all_ids = views(texts@);
            assert(all_ids.take(i as int) =~= all_ids);
            assert forall|s: Seq<char>| out@.contains(s) <==> known_ids(
                before,
                models(list@),
            ).contains(s) by {
                assert(all_ids.contains(s) <==> all_ids.to_set().contains(s));
            }
            assert(out@ =~= known_ids(before, models(list@)));
        }
    }
    *ids = out;
}

/// Whether two lists of documents are equal.
pub fn same_list(a: &Vec<Json>, b: &Vec<Json>) -> (r: bool)
    ensures
        r == (models(a@) == models(b@)),
{
    if a.len() != b.len() {
        proof {
            assert(models(a@).len() != models(b@).len());
        }
        return false;
    }
    let mut i: usize = 0;
    while i < a.len()
        invariant
            i <= a.len(),
            a.len() == b.len(),
            forall|j: int| 0 <= j < i ==> models(a@)[j] == models(b@)[j],
        decreases a.len() - i,
    {
        if !a[i].same(&b[i]) {
            proof {
                assert(models(a@)[i as int] != models(b@)[i as int]);
            }
            return false;
        }
        i = i + 1;
    }
    proof {
        assert(models(a@) =~= models(b@));
    }
    true
}

/// The results of the first `n` tasks that are fetched now, and the downloads
/// that have been tried then: a finished task whose result is not on this
/// machine is tried once.
pub open spec fn caching(
    tasks: Seq<JsonModel>,
    local: Map<Seq<char>, Seq<char>>,
    present: Set<Seq<char>>,
    start: (Seq<StepView>, Set<Seq<char>>),
    n: nat,
) -> (Seq<StepView>, Set<Seq<char>>)
    decreases n,
{
    if n == 0 {
        start
    } else {
        let (steps, attempts) = caching(tasks, local, present, start, (n - 1) as nat);
        let task = tasks[n - 1];
        let id = task.text("id"@);
        if task.text("status"@) == "succeeded"@ && !is_here(local, present, id)
            && !attempts.contains(id) {
            (steps.push(StepView::DownloadTask(id, "cache"@, ""@)), attempts.insert(id))
        } else {
            (steps, attempts)
        }
    }
}

/// The list and the steps when the tasks have come. The task that is shown
/// large stays the same task, wherever it stands now; a file that is missing
/// is fetched.
pub open spec fn tasks_answered(
    list: TaskListView,
    value: JsonModel,
    present: Set<Seq<char>>,
) -> (TaskListView, Seq<StepView>) {
    let tasks = items_of(value);
    let place = match task_id_at(list.tasks, list.selected_task) {
        Some(id) => task_place(tasks, id),
        None => None,
    };
    let changed = list.tasks != tasks;
    let drawn = seq![StepView::Draw(Panel::Tasks)];
    let refreshed = if changed {
        drawn.push(fetch("wallet"@, "/api/wallet"@)).push(StepView::RefreshQuote)
    } else {
        drawn
    };
    let (steps, attempts) = caching(
        tasks,
        list.local,
        present,
        (refreshed, list.attempts),
        tasks.len(),
    );
    (
        TaskListView {
            tasks,
            selected: known_ids(list.selected, tasks),
            selected_task: match place {
                Some(i) => i,
                None => (-1) as i32,
            },
            preview_open: list.preview_open && place is Some,
            attempts,
            ..list
        },
        steps,
    )
}

fn add_caching(list: &mut TaskList, steps: &mut Vec<Step>, present: &TextSet)
    ensures
        ({
            let (s, a) = caching(
                old(list)@.tasks,
                old(list)@.local,
                present@,
                (step_views(old(steps)@), old(list)@.attempts),
                old(list)@.tasks.len(),
            );
            &&& step_views(final(steps)@) == s
            &&& final(list)@ == (TaskListView { attempts: a, ..old(list)@ })
        }),
{
    let ghost before = list@;
    let ghost start = (step_views(steps@), list@.attempts);
    let mut i: usize = 0;
    while i < list.tasks.len()
        invariant
            i <= list.tasks.len(),
            list@ == (TaskListView { attempts: list@.attempts, ..before }),
            (step_views(steps@), list@.attempts) == caching(
                before.tasks,
                before.local,
                present@,
                start,
                i as nat,
            ),
        decreases list.tasks.len() - i,
    {
        proof {
            assert(before.tasks[i as int] == list.tasks@[i as int]@);
        }
        if list.tasks[i].text_is("status", "succeeded") {
            let id: String = list.tasks[i].text("id");
            if here(&list.local, present, id.as_str()).is_none() {
                if list.attempts.insert(id.as_str()) {
                    then_do(steps, Step::DownloadTask(id, "cache".to_owned(), "".to_owned()));
                } else {
                    proof {
                        assert(list@.attempts =~= caching(
                            before.tasks,
                            before.local,
                            present@,
                            start,
                            i as nat,
                        ).1);
                    }
                }
            }
        }
        i = i + 1;
    }
}

/// Takes the tasks that have come.
pub fn tasks_listed(list: &mut TaskList, value: &Json, present: &TextSet) -> (r: Vec<Step>)
    ensures
        (final(list)@, step_views(r@)) == tasks_answered(old(list)@, value@, present@),
{
    let tasks: Vec<Json> = items(value);
    let changed: bool = !same_list(&list.tasks, &tasks);
    let shown: Option<String> = selected_task_id(&list.tasks, list.selected_task);
    let place: Option<i32> = match &shown {
        Some(id) => selected_task_index(&tasks, id.as_str()),
        None => None,
    };
    retain_known(&mut list.selected, &tasks);
    list.tasks = tasks;
    let mut steps: Vec<Step> = one(Step::Draw(Panel::Tasks));
    match place {
        Some(i) => {
            list.selected_task = i;
        },
        None => {
            list.selected_task = -1;
            list.preview_open = false;
        },
    }
    if changed {
        then_do(&mut steps, fetching("wallet", "/api/wallet"));
        then_do(&mut steps, Step::RefreshQuote);
    }
    add_caching(list, &mut steps, present);
    steps
}

/// The list and the steps when chosen tasks have been put aside.
pub fn tasks_trashed(list: &mut TaskList) -> (r: Vec<Step>)
    ensures
        final(list)@ == (TaskListView {
            selected: Set::empty(),
            selection_mode: false,
            ..old(list)@
        }),
        step_views(r@) == seq![
            StepView::Notice("已从结果列表移除"@),
            fetch("tasks"@, "/api/generation/tasks"@),
        ],
{
    list.selected.clear();
    list.selection_mode = false;
    let mut steps: Vec<Step> = one(Step::Notice("已从结果列表移除".to_owned()));
    then_do(&mut steps, fetching("tasks", "/api/generation/tasks"));
    proof {
        assert(step_views(steps@) =~= seq![
            StepView::Notice("已从结果列表移除"@),
            fetch("tasks"@, "/api/generation/tasks"@),
        ]);
    }
    steps
}

/// The task that is shown large is followed by its identity when the list
/// changes its order.
pub proof fn shown_task_is_followed(
    list: TaskListView,
    value: JsonModel,
    present: Set<Seq<char>>,
    id: Seq<char>,
)
    requires
        task_id_at(list.tasks, list.selected_task) == Some(id),
        any(items_of(value), text_is("id"@, id)),
        items_of(value).len() <= i32::MAX,
    ensures
        task_id_at(
            tasks_answered(list, value, present).0.tasks,
            tasks_answered(list, value, present).0.selected_task,
        ) == Some(id),
{
    let p = text_is("id"@, id);
    crate::lists::first_where_any(items_of(value), p);
    crate::lists::first_from_found(items_of(value), p, 0);
}

/// Every task stands in the batch of its key, and a batch has tasks of its key
/// alone.
pub proof fn batches_hold_every_task(tasks: Seq<JsonModel>, i: int)
    requires
        0 <= i < tasks.len(),
        tasks.len() <= usize::MAX,
    ensures
        batch_keys(tasks).contains(batch_key(tasks[i])),
        batch_members(tasks, batch_key(tasks[i])).contains(i as usize),
        forall|key: Seq<char>|
            key != batch_key(tasks[i]) ==> !(#[trigger] batch_members(tasks, key)).contains(
                i as usize,
            ),
    decreases tasks.len(),
{
    let rest = tasks.drop_last();
    let before = batch_keys(rest);
    let key = batch_key(tasks[i]);
    if i < tasks.len() - 1 {
        batches_hold_every_task(rest, i);
        assert(rest[i] == tasks[i]);
        let k = choose|k: int| 0 <= k < before.len() && before[k] == key;
        assert(batch_keys(tasks)[k] == key);
        let m = batch_members(rest, key);
        let at = choose|at: int| 0 <= at < m.len() && m[at] == i as usize;
        assert(batch_members(tasks, key)[at] == i as usize);
        assert forall|other: Seq<char>| other != key implies !(#[trigger] batch_members(
            tasks,
            other,
        )).contains(i as usize) by {
            let all = batch_members(tasks, other);
            if all.contains(i as usize) {
                let at2 = choose|at2: int| 0 <= at2 < all.len() && all[at2] == i as usize;
                if at2 < batch_members(rest, other).len() {
                    assert(batch_members(rest, other)[at2] == i as usize);
                    assert(batch_members(rest, other).contains(i as usize));
                }
            }
        }
    } else {
        let all_keys = batch_keys(tasks);
        if !before.contains(key) {
            assert(all_keys[before.len() as int] == key);
        }
        let m = batch_members(rest, key);
        assert(batch_members(tasks, key)[m.len() as int] == i as usize);
        assert forall|other: Seq<char>| other != key implies !(#[trigger] batch_members(
            tasks,
            other,
        )).contains(i as usize) by {
            members_are_places(rest, other);
            let all = batch_members(tasks, other);
            if all.contains(i as usize) {
                let at2 = choose|at2: int| 0 <= at2 < all.len() && all[at2] == i as usize;
                assert(batch_members(rest, other)[at2] < rest.len());
            }
        }
    }
}

proof fn members_are_places(tasks: Seq<JsonModel>, key: Seq<char>)
    requires
        tasks.len() <= usize::MAX,
    ensures
        forall|j: int|
            0 <= j < batch_members(tasks, key).len() ==> #[trigger] batch_members(tasks, key)[j]
                < tasks.len(),
    decreases tasks.len(),
{
    if tasks.len() > 0 {
        members_are_places(tasks.drop_last(), key);
        let before = batch_members(tasks.drop_last(), key);
        assert forall|j: int| 0 <= j < batch_members(tasks, key).len() implies
            #[trigger] batch_members(tasks, key)[j] < tasks.len() by {
            if j < before.len() {
                assert(before[j] < tasks.drop_last().len());
            }
        }
    }
}

} // verus!
