//! Copying finished files to a folder of the user's.

use crate::cloud::steps::{asking, item_views, ExportItem, ItemView, Step};
use crate::collections::TextSet;
use crate::json::{models, Json, JsonModel};
use crate::paths::{extension, extension_of, join_path, joined_path};
use crate::text::{
    byte_len, byte_width, cat, cat3, chars_of, control, decimal, is_control, opt, outcome, same,
    text_of, to_decimal, trim, trim_end_matches, trim_end_of, trim_start_matches, trim_start_of,
    trimmed, views, width_of,
};
use vstd::prelude::*;
use vstd::string::*;

verus! {

/// How many names are tried for one file.
pub const MAX_NAMES: u64 = 10_000;

/// A character that cannot stand in a file name.
pub open spec fn unsafe_in_name(c: char) -> bool {
    c == '/' || c == '\\' || control(c)
}

/// `s` with an underscore for each character that cannot stand in a file name.
pub open spec fn safe_name(s: Seq<char>) -> Seq<char> {
    Seq::new(
        s.len(),
        |i: int|
            if unsafe_in_name(s[i]) {
                '_'
            } else {
                s[i]
            },
    )
}

/// The longest beginning of `s` that takes at most `room` bytes.
pub open spec fn fitting(s: Seq<char>, room: nat) -> Seq<char>
    decreases s.len(),
{
    if s.len() == 0 || byte_width(s[0]) > room {
        Seq::empty()
    } else {
        seq![s[0]] + fitting(s.drop_first(), (room - byte_width(s[0])) as nat)
    }
}

/// The stem under which a file is exported.
pub open spec fn stem_for(value: Seq<char>, max_bytes: nat) -> Seq<char> {
    let clean = trim_end_of(trim_start_of(trimmed(safe_name(value)), '.'), '.');
    let limited = fitting(clean, max_bytes);
    if limited.len() == 0 {
        "素材"@
    } else {
        limited
    }
}

fn make_safe(s: &str) -> (r: String)
    ensures
        r@ == safe_name(s@),
{
    let v: Vec<char> = chars_of(s);
    let mut out: String = String::new();
    let mut i: usize = 0;
    while i < v.len()
        invariant
            i <= v.len(),
            v@ == s@,
            out@.len() == i,
            forall|j: int| 0 <= j < i ==> #[trigger] out@[j] == safe_name(s@)[j],
        decreases v.len() - i,
    {
        let c: char = v[i];
        if c == '/' || c == '\\' || is_control(c) {
            out.push('_');
        } else {
            out.push(c);
        }
        i = i + 1;
    }
    proof {
        assert(out@ =~= safe_name(s@));
    }
    out
}

fn fit(s: &str, max_bytes: usize) -> (r: String)
    ensures
        r@ == fitting(s@, max_bytes as nat),
{
    let v: Vec<char> = chars_of(s);
    let mut room: usize = max_bytes;
    let mut i: usize = 0;
    proof {
        assert(v@.skip(0) =~= v@);
        assert(v@.take(0) + fitting(v@, room as nat) =~= fitting(v@, room as nat));
    }
    while i < v.len()
        invariant
            i <= v.len(),
            v@ == s@,
            fitting(s@, max_bytes as nat) == v@.take(i as int) + fitting(
                v@.skip(i as int),
                room as nat,
            ),
        decreases v.len() - i,
    {
        let width: usize = width_of(v[i]);
        proof {
            assert(v@.skip(i as int)[0] == v@[i as int]);
            assert(v@.skip(i as int).drop_first() =~= v@.skip(i + 1));
        }
        if width > room {
            proof {
                assert(v@.take(i as int) + Seq::<char>::empty() =~= v@.subrange(0, i as int));
            }
            return text_of(&v, 0, i);
        }
        room = room - width;
        proof {
            assert(v@.take(i as int) + (seq![v@[i as int]] + fitting(v@.skip(i + 1), room as nat))
                =~= v@.take(i + 1) + fitting(v@.skip(i + 1), room as nat));
        }
        i = i + 1;
    }
    proof {
        assert(v@.take(i as int) + fitting(v@.skip(i as int), room as nat) =~= v@.subrange(
            0,
            v@.len() as int,
        ));
    }
    text_of(&v, 0, v.len())
}

/// The stem under which a file is exported: without characters that cannot
/// stand in a file name, without outer blanks and dots, and of at most
/// `max_bytes` bytes.
pub fn export_stem(value: &str, max_bytes: usize) -> (r: String)
    ensures
        r@ == stem_for(value@, max_bytes as nat),
{
    let clean: String = make_safe(value);
    let inner: String = trim(clean.as_str());
    let start: String = trim_start_matches(inner.as_str(), '.');
    let both: String = trim_end_matches(start.as_str(), '.');
    let limited: String = fit(both.as_str(), max_bytes);
    if limited.as_str().is_empty() {
        "素材".to_owned()
    } else {
        limited
    }
}

/// The name that is tried after `index` others: the plain name, then the name
/// with the identity of the file, then both with a number.
pub open spec fn name_at(
    source: Seq<char>,
    display_name: Seq<char>,
    stable_id: Seq<char>,
    index: nat,
) -> Seq<char> {
    let stem = stem_for(display_name, 160);
    let id = stem_for(stable_id, 48);
    let suffix = if index == 0 {
        ""@
    } else if index == 1 {
        "-"@ + id
    } else {
        "-"@ + id + "-"@ + decimal((index - 1) as nat)
    };
    let plain = stem + suffix;
    match extension_of(source) {
        Some(e) => if e.len() == 0 {
            plain
        } else {
            plain + "."@ + e
        },
        None => plain,
    }
}

pub fn export_name(source: &str, display_name: &str, stable_id: &str, index: u64) -> (r: String)
    ensures
        r@ == name_at(source@, display_name@, stable_id@, index as nat),
{
    let stem: String = export_stem(display_name, 160);
    let id: String = export_stem(stable_id, 48);
    let suffix: String = if index == 0 {
        "".to_owned()
    } else if index == 1 {
        cat("-", id.as_str())
    } else {
        cat(cat3("-", id.as_str(), "-").as_str(), to_decimal(index - 1).as_str())
    };
    let plain: String = cat(stem.as_str(), suffix.as_str());
    match extension(source) {
        Some(e) => if e.as_str().is_empty() {
            plain
        } else {
            cat3(plain.as_str(), ".", e.as_str())
        },
        None => plain,
    }
}

/// The first name at or after `index` that is not taken.
pub open spec fn free_from(
    source: Seq<char>,
    folder: Seq<char>,
    display_name: Seq<char>,
    stable_id: Seq<char>,
    taken: Set<Seq<char>>,
    index: nat,
) -> Option<nat>
    decreases MAX_NAMES - index,
{
    if index >= MAX_NAMES {
        None
    } else if !taken.contains(joined_path(folder, name_at(source, display_name, stable_id, index))) {
        Some(index)
    } else {
        free_from(source, folder, display_name, stable_id, taken, index + 1)
    }
}

/// Where a file goes among the files that are there already: under the first
/// of its names that no file has.
pub open spec fn export_place(
    source: Seq<char>,
    folder: Seq<char>,
    display_name: Seq<char>,
    stable_id: Seq<char>,
    taken: Set<Seq<char>>,
) -> Result<Seq<char>, Seq<char>> {
    match free_from(source, folder, display_name, stable_id, taken, 0) {
        Some(i) => Ok(joined_path(folder, name_at(source, display_name, stable_id, i))),
        None => Err("同名文件过多，请选择其他文件夹"@),
    }
}

/// Where a file goes among the files that are there already.
pub fn copy_unique_export(
    source: &str,
    folder: &str,
    display_name: &str,
    stable_id: &str,
    taken: &TextSet,
) -> (r: Result<String, String>)
    ensures
        outcome(r) == export_place(source@, folder@, display_name@, stable_id@, taken@),
{
    let mut index: u64 = 0;
    while index < MAX_NAMES
        invariant
            index <= MAX_NAMES,
            free_from(source@, folder@, display_name@, stable_id@, taken@, 0) == free_from(
                source@,
                folder@,
                display_name@,
                stable_id@,
                taken@,
                index as nat,
            ),
        decreases MAX_NAMES - index,
    {
        let name: String = export_name(source, display_name, stable_id, index);
        let path: String = join_path(folder, name.as_str());
        if !taken.has(path.as_str()) {
            return Ok(path);
        }
        index = index + 1;
    }
    Err("同名文件过多，请选择其他文件夹".to_owned())
}

/// What became of the attempt to create and fill a file.
pub enum CopyEvent {
    /// No attempt has been made.
    Begin,
    /// A file of that name is there.
    NameTaken,
    Copied,
    Cancelled,
    Failed(String),
}

pub enum CopyEventView {
    Begin,
    NameTaken,
    Copied,
    Cancelled,
    Failed(Seq<char>),
}

impl View for CopyEvent {
    type V = CopyEventView;

    open spec fn view(&self) -> CopyEventView {
        match *self {
            CopyEvent::Begin => CopyEventView::Begin,
            CopyEvent::NameTaken => CopyEventView::NameTaken,
            CopyEvent::Copied => CopyEventView::Copied,
            CopyEvent::Cancelled => CopyEventView::Cancelled,
            CopyEvent::Failed(m) => CopyEventView::Failed(m@),
        }
    }
}

/// What is done next for a file.
pub enum CopyAction {
    /// A file of this name is created, if none is there, and filled.
    Create(String),
    /// The file is complete.
    Done,
    /// The copy was given up; what was created is removed.
    GivenUp,
    /// The copy failed; what was created is removed.
    Error(String),
}

pub enum CopyActionView {
    Create(Seq<char>),
    Done,
    GivenUp,
    Error(Seq<char>),
}

impl View for CopyAction {
    type V = CopyActionView;

    open spec fn view(&self) -> CopyActionView {
        match *self {
            CopyAction::Create(name) => CopyActionView::Create(name@),
            CopyAction::Done => CopyActionView::Done,
            CopyAction::GivenUp => CopyActionView::GivenUp,
            CopyAction::Error(m) => CopyActionView::Error(m@),
        }
    }
}

/// What is done after an attempt, and how many names have been tried then. The
/// wish to stop is looked at before each attempt.
pub open spec fn copy_next(
    source: Seq<char>,
    display_name: Seq<char>,
    stable_id: Seq<char>,
    tried: u64,
    cancel: bool,
    event: CopyEventView,
) -> (CopyActionView, u64) {
    match event {
        CopyEventView::Copied => (CopyActionView::Done, tried),
        CopyEventView::Cancelled => (CopyActionView::GivenUp, tried),
        CopyEventView::Failed(m) => (CopyActionView::Error(m), tried),
        _ => if tried >= MAX_NAMES {
            (CopyActionView::Error("同名文件过多，请选择其他文件夹"@), tried)
        } else if cancel {
            (CopyActionView::GivenUp, tried)
        } else {
            (
                CopyActionView::Create(name_at(source, display_name, stable_id, tried as nat)),
                (tried + 1) as u64,
            )
        },
    }
}

/// One turn of the copy of a file: the names are tried in their order, each
/// only where no file has it, until one attempt comes to an end.
pub fn copy_unique_export_progress(
    source: &str,
    display_name: &str,
    stable_id: &str,
    tried: u64,
    cancel: bool,
    event: CopyEvent,
) -> (r: (CopyAction, u64))
    ensures
        (r.0@, r.1) == copy_next(source@, display_name@, stable_id@, tried, cancel, event@),
{
    match event {
        CopyEvent::Copied => (CopyAction::Done, tried),
        CopyEvent::Cancelled => (CopyAction::GivenUp, tried),
        CopyEvent::Failed(m) => (CopyAction::Error(m), tried),
        _ => {
            if tried >= MAX_NAMES {
                (CopyAction::Error("同名文件过多，请选择其他文件夹".to_owned()), tried)
            } else if cancel {
                (CopyAction::GivenUp, tried)
            } else {
                (CopyAction::Create(export_name(source, display_name, stable_id, tried)), tried + 1)
            }
        },
    }
}

/// The copy of a list of files.
pub struct ExportCopyJob {
    pub items: Vec<ExportItem>,
    pub folder: String,
    pub completed: TextSet,
    pub running: bool,
    /// The size of all files.
    pub bytes_total: u64,
}

pub struct ExportView {
    pub items: Seq<ItemView>,
    pub folder: Seq<char>,
    pub completed: Set<Seq<char>>,
    pub running: bool,
    pub bytes_total: u64,
}

impl View for ExportCopyJob {
    type V = ExportView;

    open spec fn view(&self) -> ExportView {
        ExportView {
            items: item_views(self.items@),
            folder: self.folder@,
            completed: self.completed@,
            running: self.running,
            bytes_total: self.bytes_total,
        }
    }
}

/// The first file at or after `from` that is not complete.
pub open spec fn next_open(job: ExportView, from: int) -> Option<int>
    decreases job.items.len() - from,
{
    if from < 0 || from >= job.items.len() {
        None
    } else if !job.completed.contains(job.items[from].id) {
        Some(from)
    } else {
        next_open(job, from + 1)
    }
}

/// The file that is copied next: the first at or after `from` that no earlier
/// run has completed.
pub fn next_export(job: &ExportCopyJob, from: usize) -> (r: Option<usize>)
    ensures
        match r {
            Some(i) => next_open(job@, from as int) == Some(i as int) && i < job.items.len(),
            None => next_open(job@, from as int) is None,
        },
{
    let mut i: usize = from;
    while i < job.items.len()
        invariant
            from <= i,
            next_open(job@, from as int) == next_open(job@, i as int),
        decreases job.items.len() - i,
    {
        proof {
            assert(job@.items[i as int] == job.items@[i as int]@);
        }
        if !job.completed.has(job.items[i].id.as_str()) {
            return Some(i);
        }
        i = i + 1;
    }
    None
}

/// The texts of a list of documents.
pub open spec fn text_models(v: Seq<Seq<char>>) -> Seq<JsonModel> {
    Seq::new(v.len(), |i: int| JsonModel::Text(v[i]))
}

pub fn text_list(v: &Vec<String>) -> (r: Json)
    ensures
        r@ == JsonModel::Array(text_models(views(v@))),
{
    let mut out: Vec<Json> = Vec::new();
    let mut i: usize = 0;
    while i < v.len()
        invariant
            i <= v.len(),
            out@.len() == i,
            forall|j: int| 0 <= j < i ==> (#[trigger] out@[j])@ == JsonModel::Text(v@[j]@),
        decreases v.len() - i,
    {
        out.push(Json::from_text(v[i].as_str()));
        i = i + 1;
    }
    proof {
        assert(models(out@) =~= text_models(views(v@)));
    }
    Json::from_list(out)
}

/// How a run over the files ends.
pub enum CopyEnd {
    All,
    Cancelled,
    /// A file of this name failed, with this error.
    Failed(String, String),
}

pub enum CopyEndView {
    All,
    Cancelled,
    Failed(Seq<char>, Seq<char>),
}

impl View for CopyEnd {
    type V = CopyEndView;

    open spec fn view(&self) -> CopyEndView {
        match *self {
            CopyEnd::All => CopyEndView::All,
            CopyEnd::Cancelled => CopyEndView::Cancelled,
            CopyEnd::Failed(name, error) => CopyEndView::Failed(name@, error@),
        }
    }
}

/// What a run over the files answers.
pub open spec fn copy_report_of(completed: Seq<Seq<char>>, end: CopyEndView) -> JsonModel {
    let done = ("completed"@, JsonModel::Array(text_models(completed)));
    match end {
        CopyEndView::All => JsonModel::Object(seq![done]),
        CopyEndView::Cancelled => JsonModel::Object(
            seq![done, ("cancelled"@, JsonModel::Bool(true))],
        ),
        CopyEndView::Failed(name, error) => JsonModel::Object(
            seq![done, ("failed"@, JsonModel::Text(name)), ("error"@, JsonModel::Text(error))],
        ),
    }
}

/// What a run over the files answers: those that it completed, and how it
/// ended.
pub fn copy_export_call(completed: &Vec<String>, end: &CopyEnd) -> (r: Json)
    ensures
        r@ == copy_report_of(views(completed@), end@),
{
    let mut fields: Vec<(String, Json)> = Vec::new();
    fields.push(("completed".to_owned(), text_list(completed)));
    match end {
        CopyEnd::All => {},
        CopyEnd::Cancelled => {
            fields.push(("cancelled".to_owned(), Json::from_bool(true)));
        },
        CopyEnd::Failed(name, error) => {
            fields.push(("failed".to_owned(), Json::from_text(name.as_str())));
            fields.push(("error".to_owned(), Json::from_text(error.as_str())));
        },
    }
    let r: Json = Json::from_members(fields);
    proof {
        assert(r@->Object_0 =~= copy_report_of(views(completed@), end@)->Object_0);
    }
    r
}

/// What the copy shows.
pub struct ExportPanel {
    pub open: bool,
    pub running: bool,
    pub total: i32,
    pub done: i32,
    pub progress: i32,
    pub message: String,
}

pub struct PanelView {
    pub open: bool,
    pub running: bool,
    pub total: i32,
    pub done: i32,
    pub progress: i32,
    pub message: Seq<char>,
}

impl View for ExportPanel {
    type V = PanelView;

    open spec fn view(&self) -> PanelView {
        PanelView {
            open: self.open,
            running: self.running,
            total: self.total,
            done: self.done,
            progress: self.progress,
            message: self.message@,
        }
    }
}

/// The part of `total` that `bytes` is, in whole percent, at most 100.
pub open spec fn percent_of(bytes: u64, total: u64) -> int {
    if total == 0 {
        0
    } else {
        (if bytes < total {
            bytes as int
        } else {
            total as int
        }) * 100 / (total as int)
    }
}

pub fn percent(bytes: u64, total: u64) -> (r: i32)
    ensures
        r == percent_of(bytes, total),
        0 <= r <= 100,
{
    if total == 0 {
        return 0;
    }
    let part: u128 = if bytes < total {
        bytes as u128
    } else {
        total as u128
    };
    let whole: u128 = total as u128;
    let q: u128 = part * 100 / whole;
    proof {
        assert(part * 100 / (whole as int) <= 100) by (nonlinear_arith)
            requires
                part <= whole,
                whole > 0,
        ;
    }
    q as i32
}

/// What is shown while the copy runs.
pub fn poll_copy_export_progress(job: &ExportCopyJob, panel: &mut ExportPanel, bytes: u64) -> (r:
    bool)
    ensures
        r == job.running,
        final(panel)@ == if job.running {
            PanelView {
                progress: percent_of(bytes, job.bytes_total) as i32,
                done: job@.completed.len() as i32,
                ..old(panel)@
            }
        } else {
            old(panel)@
        },
{
    if !job.running {
        return false;
    }
    panel.progress = percent(bytes, job.bytes_total);
    panel.done = job.completed.len() as i32;
    true
}

/// Why files are not copied now: `None` where the folder can be asked for.
pub open spec fn export_refused(items: nat, busy: bool) -> Option<Seq<char>> {
    if items == 0 {
        Some("请先选择素材"@)
    } else if busy {
        Some("请先完成当前导出"@)
    } else {
        None
    }
}

pub fn check_export(items: &Vec<ExportItem>, current: &Option<ExportCopyJob>) -> (r: Option<String>)
    ensures
        opt(r) == export_refused(items@.len(), current is Some),
{
    if items.len() == 0 {
        Some("请先选择素材".to_owned())
    } else if current.is_some() {
        Some("请先完成当前导出".to_owned())
    } else {
        None
    }
}

/// The view of an optional copy.
pub open spec fn opt_export(job: Option<ExportCopyJob>) -> Option<ExportView> {
    match job {
        Some(j) => Some(j@),
        None => None,
    }
}

/// The copy of files to a folder that the user has picked.
pub open spec fn export_begun(
    items: Seq<ItemView>,
    folder: Seq<char>,
    bytes_total: u64,
) -> (ExportView, PanelView) {
    (
        ExportView { items, folder, completed: Set::empty(), running: true, bytes_total },
        PanelView {
            open: true,
            running: true,
            total: items.len() as i32,
            done: 0,
            progress: 0,
            message: ""@,
        },
    )
}

/// Begins the copy of files to a folder that the user has picked.
pub fn begin_copy_export(
    current: &mut Option<ExportCopyJob>,
    panel: &mut ExportPanel,
    items: Vec<ExportItem>,
    folder: String,
    bytes_total: u64,
) -> (r: Step)
    ensures
        opt_export(*final(current)) == Some(
            export_begun(item_views(items@), folder@, bytes_total).0,
        ),
        final(panel)@ == export_begun(item_views(items@), folder@, bytes_total).1,
        r@ == crate::cloud::steps::ask(
            "export-copy"@,
            "POST"@,
            "local:export-copy"@,
            JsonModel::Null,
        ),
{
    panel.open = true;
    panel.running = true;
    panel.total = items.len() as i32;
    panel.done = 0;
    panel.progress = 0;
    panel.message = "".to_owned();
    *current = Some(
        ExportCopyJob { items, folder, completed: TextSet::new(), running: true, bytes_total },
    );
    asking("export-copy", "POST", "local:export-copy", Json::Null)
}

/// The identities of the texts in a list.
pub open spec fn with_texts(start: Set<Seq<char>>, v: Seq<JsonModel>) -> Set<Seq<char>>
    decreases v.len(),
{
    if v.len() == 0 {
        start
    } else {
        let before = with_texts(start, v.drop_last());
        match v.last() {
            JsonModel::Text(s) => before.insert(s),
            _ => before,
        }
    }
}

/// Puts the texts of a list of documents into a set.
pub fn insert_texts(set: &mut TextSet, v: &Vec<Json>)
    ensures
        final(set)@ == with_texts(old(set)@, models(v@)),
{
    let ghost m = models(v@);
    let ghost start = set@;
    let mut i: usize = 0;
    proof {
        assert(m.take(0) =~= Seq::empty());
    }
    while i < v.len()
        invariant
            i <= v.len(),
            m == models(v@),
            set@ == with_texts(start, m.take(i as int)),
        decreases v.len() - i,
    {
        proof {
            assert(m.take(i + 1).drop_last() =~= m.take(i as int));
            assert(m.take(i + 1).last() == m[i as int]);
        }
        if let Some(s) = v[i].as_text() {
            set.insert(s.as_str());
        }
        i = i + 1;
    }
    proof {
        assert(m.take(m.len() as int) =~= m);
    }
}

/// What is said when a run over the files has ended.
pub open spec fn export_message(value: JsonModel, done: nat, total: nat) -> Seq<char> {
    if value.at("cancelled"@) == JsonModel::Bool(true) {
        "已取消，完成 "@ + decimal(done) + "/"@ + decimal(total) + " 项"@
    } else {
        match value.at("error"@).as_text() {
            Some(error) => "已导出 "@ + decimal(done) + "/"@ + decimal(total) + " 项；"@ + value.text(
                "failed"@,
            ) + " 失败："@ + error,
            None => "已导出 "@ + decimal(done) + " 项"@,
        }
    }
}

/// The copy and what it shows after a run has ended; `bytes` is the size of
/// the files that are complete.
pub open spec fn export_answered(
    job: ExportView,
    panel: PanelView,
    value: JsonModel,
    bytes: u64,
) -> (ExportView, PanelView) {
    let completed = with_texts(job.completed, value.list("completed"@));
    let done = completed.len();
    let total = job.items.len();
    (
        ExportView { completed, running: false, ..job },
        PanelView {
            done: done as i32,
            progress: if done == total {
                100
            } else {
                percent_of(bytes, job.bytes_total) as i32
            },
            message: export_message(value, done, total),
            running: false,
            ..panel
        },
    )
}

fn tell_export(value: &Json, done: usize, total: usize) -> (r: String)
    ensures
        r@ == export_message(value@, done as nat, total as nat),
{
    let part: String = cat3(
        to_decimal(done as u64).as_str(),
        "/",
        to_decimal(total as u64).as_str(),
    );
    if value.at("cancelled").same(&Json::Bool(true)) {
        let r: String = cat3("已取消，完成 ", part.as_str(), " 项");
        proof {
            assert(r@ =~= export_message(value@, done as nat, total as nat));
        }
        return r;
    }
    match value.at("error").as_text() {
        Some(error) => {
            let head: String = cat3("已导出 ", part.as_str(), " 项；");
            let failed: String = value.text("failed");
            let r: String = cat(
                cat3(head.as_str(), failed.as_str(), " 失败：").as_str(),
                error.as_str(),
            );
            proof {
                assert(r@ =~= export_message(value@, done as nat, total as nat));
            }
            r
        },
        None => cat3("已导出 ", to_decimal(done as u64).as_str(), " 项"),
    }
}

/// Takes note of the end of a run over the files.
pub fn export_copied(job: &mut ExportCopyJob, panel: &mut ExportPanel, value: &Json, bytes: u64)
    ensures
        (final(job)@, final(panel)@) == export_answered(old(job)@, old(panel)@, value@, bytes),
{
    let list: Vec<Json> = value.list("completed");
    insert_texts(&mut job.completed, &list);
    job.running = false;
    let done: usize = job.completed.len();
    let total: usize = job.items.len();
    panel.done = done as i32;
    panel.progress = if done == total {
        100
    } else {
        percent(bytes, job.bytes_total)
    };
    panel.message = tell_export(value, done, total);
    panel.running = false;
}

/// The size of those of the first `n` files that are complete, at most
/// `u64::MAX`.
pub open spec fn complete_size(job: ExportView, sizes: Seq<u64>, n: nat) -> nat
    decreases n,
{
    if n == 0 {
        0
    } else {
        let before = complete_size(job, sizes, (n - 1) as nat);
        if job.completed.contains(job.items[n - 1].id) {
            if before + sizes[n - 1] > u64::MAX {
                u64::MAX as nat
            } else {
                before + sizes[n - 1] as nat
            }
        } else {
            before
        }
    }
}

/// The size of the files that are complete; `sizes` has the size of each file.
pub fn completed_bytes(job: &ExportCopyJob, sizes: &Vec<u64>) -> (r: u64)
    requires
        sizes.len() == job.items.len(),
    ensures
        r == complete_size(job@, sizes@, job@.items.len()),
{
    let mut total: u64 = 0;
    let mut i: usize = 0;
    while i < job.items.len()
        invariant
            i <= job.items.len(),
            sizes.len() == job.items.len(),
            total == complete_size(job@, sizes@, i as nat),
        decreases job.items.len() - i,
    {
        proof {
            assert(job@.items[i as int] == job.items@[i as int]@);
        }
        if job.completed.has(job.items[i].id.as_str()) {
            total = if sizes[i] > u64::MAX - total {
                u64::MAX
            } else {
                total + sizes[i]
            };
        }
        i = i + 1;
    }
    total
}

/// The copy and what it shows when it is tried again for the files that are
/// not complete.
pub open spec fn export_retried(job: ExportView, panel: PanelView) -> Option<
    (ExportView, PanelView),
> {
    if job.running || job.completed.len() == job.items.len() {
        None
    } else {
        Some(
            (
                ExportView { running: true, ..job },
                PanelView { message: ""@, running: true, ..panel },
            ),
        )
    }
}

/// Tries the copy again; the result is the job that is started.
pub fn retry_copy_export(job: &mut ExportCopyJob, panel: &mut ExportPanel) -> (r: Option<Step>)
    ensures
        match export_retried(old(job)@, old(panel)@) {
            Some((after, shown)) => final(job)@ == after && final(panel)@ == shown && r is Some
                && r->0@ == crate::cloud::steps::ask(
                "export-copy"@,
                "POST"@,
                "local:export-copy"@,
                JsonModel::Null,
            ),
            None => final(job)@ == old(job)@ && final(panel)@ == old(panel)@ && r is None,
        },
{
    if job.running || job.completed.len() == job.items.len() {
        return None;
    }
    job.running = true;
    panel.message = "".to_owned();
    panel.running = true;
    Some(asking("export-copy", "POST", "local:export-copy", Json::Null))
}

proof fn fitting_fits(s: Seq<char>, room: nat)
    ensures
        byte_len(fitting(s, room)) <= room,
        forall|i: int| 0 <= i < fitting(s, room).len() ==> #[trigger] fitting(s, room)[i] == s[i],
        fitting(s, room).len() <= s.len(),
    decreases s.len(),
{
    if s.len() > 0 && byte_width(s[0]) <= room {
        let rest = fitting(s.drop_first(), (room - byte_width(s[0])) as nat);
        fitting_fits(s.drop_first(), (room - byte_width(s[0])) as nat);
        crate::text::byte_len_concat(seq![s[0]], rest);
        reveal_with_fuel(byte_len, 2);
        assert(seq![s[0]].drop_last() =~= Seq::empty());
        assert forall|i: int| 0 <= i < fitting(s, room).len() implies #[trigger] fitting(
            s,
            room,
        )[i] == s[i] by {
            if i > 0 {
                assert(rest[i - 1] == s.drop_first()[i - 1]);
            }
        }
    }
}

/// The stem of an exported file keeps to its limit, but for the stand-in of a
/// name of which nothing is left.
pub proof fn exported_stems_are_short(value: Seq<char>, max_bytes: nat)
    ensures
        stem_for(value, max_bytes) == "素材"@ || byte_len(stem_for(value, max_bytes)) <= max_bytes,
{
    let clean = trim_end_of(trim_start_of(trimmed(safe_name(value)), '.'), '.');
    fitting_fits(clean, max_bytes);
}

proof fn free_from_bounds(
    source: Seq<char>,
    folder: Seq<char>,
    display_name: Seq<char>,
    stable_id: Seq<char>,
    taken: Set<Seq<char>>,
    index: nat,
)
    ensures
        free_from(source, folder, display_name, stable_id, taken, index) matches Some(i) ==> {
            &&& index <= i < MAX_NAMES
            &&& !taken.contains(joined_path(folder, name_at(source, display_name, stable_id, i)))
        },
    decreases MAX_NAMES - index,
{
    if index < MAX_NAMES && taken.contains(
        joined_path(folder, name_at(source, display_name, stable_id, index)),
    ) {
        free_from_bounds(source, folder, display_name, stable_id, taken, index + 1);
    }
}

/// An export never takes the name of a file that is there.
pub proof fn exports_never_overwrite(
    source: Seq<char>,
    folder: Seq<char>,
    display_name: Seq<char>,
    stable_id: Seq<char>,
    taken: Set<Seq<char>>,
)
    ensures
        export_place(source, folder, display_name, stable_id, taken) matches Ok(path)
            ==> !taken.contains(path),
{
    free_from_bounds(source, folder, display_name, stable_id, taken, 0);
}

/// A file that an earlier run has completed is not copied again.
pub proof fn completed_files_are_skipped(job: ExportView, from: int)
    requires
        0 <= from,
    ensures
        next_open(job, from) matches Some(i) ==> from <= i < job.items.len()
            && !job.completed.contains(job.items[i].id),
    decreases job.items.len() - from,
{
    if from < job.items.len() && job.completed.contains(job.items[from].id) {
        completed_files_are_skipped(job, from + 1);
    }
}

} // verus!
