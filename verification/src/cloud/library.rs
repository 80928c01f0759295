//! What a request to the personal library means, and what it is answered.

use crate::cloud::personal::{get_number, number_at};
use crate::cloud::requests::{Request, RequestView};
use crate::json::{models, Json, JsonModel};
use crate::paths::{extension, extension_of, file_name, file_name_of};
use crate::sort::{arrange, is_order, key_views, order_of, time_key, KeyView, SortKey};
use crate::text::{cat3, decimal, has_prefix, opt, same, starts_with, to_decimal, views};
use vstd::prelude::*;
use vstd::string::*;

verus! {

/// An operation of the personal library.
pub enum LibraryOp {
    /// A file is taken in, and out of the bin where it was there.
    Import(String),
    /// A file that was generated is taken in, under a name where one is given.
    Register(String, Option<String>),
    Rename(String, String),
    Trash(String),
    Restore(String),
    Favorite(String, bool),
    CreateFolder(String),
    /// Files are moved to a folder, or out of every folder.
    Move(Vec<String>, Option<String>),
    /// Files are put into the bin, or taken out of it.
    SetTrashed(Vec<String>, bool),
    /// The results of the folder of finished results are taken in.
    List,
}

pub enum OpView {
    Import(Seq<char>),
    Register(Seq<char>, Option<Seq<char>>),
    Rename(Seq<char>, Seq<char>),
    Trash(Seq<char>),
    Restore(Seq<char>),
    Favorite(Seq<char>, bool),
    CreateFolder(Seq<char>),
    Move(Seq<Seq<char>>, Option<Seq<char>>),
    SetTrashed(Seq<Seq<char>>, bool),
    List,
}

impl View for LibraryOp {
    type V = OpView;

    open spec fn view(&self) -> OpView {
        match *self {
            LibraryOp::Import(a) => OpView::Import(a@),
            LibraryOp::Register(a, b) => OpView::Register(a@, opt(b)),
            LibraryOp::Rename(a, b) => OpView::Rename(a@, b@),
            LibraryOp::Trash(a) => OpView::Trash(a@),
            LibraryOp::Restore(a) => OpView::Restore(a@),
            LibraryOp::Favorite(a, b) => OpView::Favorite(a@, b),
            LibraryOp::CreateFolder(a) => OpView::CreateFolder(a@),
            LibraryOp::Move(a, b) => OpView::Move(views(a@), opt(b)),
            LibraryOp::SetTrashed(a, b) => OpView::SetTrashed(views(a@), b),
            LibraryOp::List => OpView::List,
        }
    }
}

/// The texts of a list of documents; what is no text is passed over.
pub open spec fn texts_of(list: Seq<JsonModel>) -> Seq<Seq<char>>
    decreases list.len(),
{
    if list.len() == 0 {
        Seq::empty()
    } else {
        match list.last().as_text() {
            Some(s) => texts_of(list.drop_last()).push(s),
            None => texts_of(list.drop_last()),
        }
    }
}

pub fn list_texts(list: &Vec<Json>) -> (r: Vec<String>)
    ensures
        views(r@) == texts_of(models(list@)),
{
    let ghost all = models(list@);
    let mut out: Vec<String> = Vec::new();
    let mut i: usize = 0;
    proof {
        assert(all.take(0) =~= Seq::empty());
        assert(views(out@) =~= Seq::empty());
    }
    while i < list.len()
        invariant
            i <= list.len(),
            all == models(list@),
            views(out@) == texts_of(all.take(i as int)),
        decreases list.len() - i,
    {
        proof {
            assert(all.take(i + 1).drop_last() =~= all.take(i as int));
            assert(all.take(i + 1).last() == list@[i as int]@);
        }
        if let Some(s) = list[i].as_text() {
            let ghost before = views(out@);
            let ghost view = s@;
            out.push(s);
            proof {
                assert(views(out@) =~= before.push(view));
            }
        }
        i = i + 1;
    }
    proof {
        assert(all.take(all.len() as int) =~= all);
    }
    out
}

/// The operation that a request asks the library for; `known` says whether the
/// library has the file that the request names.
pub open spec fn operation_of(req: RequestView, known: bool) -> Result<OpView, Seq<char>> {
    let body = req.body;
    let id = body.text("id"@);
    if id.len() > 0 && !known {
        Err("未找到该个人资产，请刷新后重试"@)
    } else if req.path == "local:library-import"@ {
        Ok(OpView::Import(body.text("path"@)))
    } else if req.path == "local:library-register"@ {
        Ok(OpView::Register(body.text("path"@), body.at("name"@).as_text()))
    } else if req.path == "local:library-rename"@ {
        Ok(OpView::Rename(id, body.text("name"@)))
    } else if req.path == "local:library-trash"@ {
        Ok(OpView::Trash(id))
    } else if req.path == "local:library-restore"@ {
        Ok(OpView::Restore(id))
    } else if req.path == "local:library-favorite"@ {
        Ok(OpView::Favorite(id, body.at("favorite"@).as_bool() == Some(true)))
    } else if req.path == "local:library-create-folder"@ {
        Ok(OpView::CreateFolder(body.text("name"@)))
    } else if req.path == "local:library-move"@ {
        Ok(
            OpView::Move(
                texts_of(body.list("ids"@)),
                match body.at("folder_id"@).as_text() {
                    Some(s) => if s.len() > 0 {
                        Some(s)
                    } else {
                        None
                    },
                    None => None,
                },
            ),
        )
    } else if req.path == "local:library-trash-selected"@ {
        Ok(OpView::SetTrashed(texts_of(body.list("ids"@)), true))
    } else if req.path == "local:library-restore-selected"@ {
        Ok(OpView::SetTrashed(texts_of(body.list("ids"@)), false))
    } else if req.path == "local:library-list"@ {
        Ok(OpView::List)
    } else {
        Err("未知的个人资产操作"@)
    }
}

/// The view of what a request means.
pub open spec fn op_outcome(r: Result<LibraryOp, String>) -> Result<OpView, Seq<char>> {
    match r {
        Ok(op) => Ok(op@),
        Err(e) => Err(e@),
    }
}

fn is_true(v: &Json, key: &str) -> (r: bool)
    ensures
        r == (v@.at(key@).as_bool() == Some(true)),
{
    match v.at(key).as_bool() {
        Some(b) => b,
        None => false,
    }
}

fn folder_named(body: &Json) -> (r: Option<String>)
    ensures
        opt(r) == match body@.at("folder_id"@).as_text() {
            Some(s) => if s.len() > 0 {
                Some(s)
            } else {
                None
            },
            None => None,
        },
{
    match body.at("folder_id").as_text() {
        Some(s) => {
            if s.as_str().is_empty() {
                None
            } else {
                Some(s)
            }
        },
        None => None,
    }
}

/// The operation that a request asks the library for.
pub fn library_operation(req: &Request, known: bool) -> (r: Result<LibraryOp, String>)
    ensures
        op_outcome(r) == operation_of(req@, known),
{
    let id: String = req.body.text("id");
    let path: &str = req.path.as_str();
    if !id.as_str().is_empty() && !known {
        return Err("未找到该个人资产，请刷新后重试".to_owned());
    }
    if same(path, "local:library-import") {
        Ok(LibraryOp::Import(req.body.text("path")))
    } else if same(path, "local:library-register") {
        Ok(LibraryOp::Register(req.body.text("path"), req.body.at("name").as_text()))
    } else if same(path, "local:library-rename") {
        Ok(LibraryOp::Rename(id, req.body.text("name")))
    } else if same(path, "local:library-trash") {
        Ok(LibraryOp::Trash(id))
    } else if same(path, "local:library-restore") {
        Ok(LibraryOp::Restore(id))
    } else if same(path, "local:library-favorite") {
        Ok(LibraryOp::Favorite(id, is_true(&req.body, "favorite")))
    } else if same(path, "local:library-create-folder") {
        Ok(LibraryOp::CreateFolder(req.body.text("name")))
    } else if same(path, "local:library-move") {
        let list: Vec<Json> = req.body.list("ids");
        Ok(LibraryOp::Move(list_texts(&list), folder_named(&req.body)))
    } else if same(path, "local:library-trash-selected") {
        let list: Vec<Json> = req.body.list("ids");
        Ok(LibraryOp::SetTrashed(list_texts(&list), true))
    } else if same(path, "local:library-restore-selected") {
        let list: Vec<Json> = req.body.list("ids");
        Ok(LibraryOp::SetTrashed(list_texts(&list), false))
    } else if same(path, "local:library-list") {
        Ok(LibraryOp::List)
    } else {
        Err("未知的个人资产操作".to_owned())
    }
}

/// What is told after an operation that changed so many files.
pub open spec fn notice_of(op: OpView, changed: nat) -> Seq<char> {
    match op {
        OpView::Import(_) => "已导入个人资产库"@,
        OpView::Rename(_, _) => "已重命名"@,
        OpView::Trash(_) => "已移入回收站"@,
        OpView::Restore(_) => "已恢复资产"@,
        OpView::Favorite(_, favorite) => if favorite {
            "已收藏"@
        } else {
            "已取消收藏"@
        },
        OpView::Move(_, _) => if changed > 0 {
            "已整理 "@ + decimal(changed) + " 项素材"@
        } else {
            ""@
        },
        OpView::SetTrashed(_, trashed) => if trashed {
            "已回收 "@ + decimal(changed) + " 项资产"@
        } else {
            "已恢复 "@ + decimal(changed) + " 项资产"@
        },
        _ => ""@,
    }
}

/// What is told after an operation that changed so many files.
pub fn library_notice(op: &LibraryOp, changed: u64) -> (r: String)
    ensures
        r@ == notice_of(op@, changed as nat),
{
    match op {
        LibraryOp::Import(_) => "已导入个人资产库".to_owned(),
        LibraryOp::Rename(_, _) => "已重命名".to_owned(),
        LibraryOp::Trash(_) => "已移入回收站".to_owned(),
        LibraryOp::Restore(_) => "已恢复资产".to_owned(),
        LibraryOp::Favorite(_, favorite) => if *favorite {
            "已收藏".to_owned()
        } else {
            "已取消收藏".to_owned()
        },
        LibraryOp::Move(_, _) => {
            if changed > 0 {
                let n: String = to_decimal(changed);
                cat3("已整理 ", n.as_str(), " 项素材")
            } else {
                "".to_owned()
            }
        },
        LibraryOp::SetTrashed(_, trashed) => {
            let n: String = to_decimal(changed);
            if *trashed {
                cat3("已回收 ", n.as_str(), " 项资产")
            } else {
                cat3("已恢复 ", n.as_str(), " 项资产")
            }
        },
        _ => "".to_owned(),
    }
}

/// Whether a file of the folder of finished results is a result.
pub open spec fn is_result(path: Seq<char>) -> bool {
    match file_name_of(path) {
        Some(name) => has_prefix(name, "gen_"@) && (extension_of(path) == Some("png"@)
            || extension_of(path) == Some("mp4"@)),
        None => false,
    }
}

/// Whether a file of the folder of finished results is a result.
pub fn is_generated_result(path: &str) -> (r: bool)
    ensures
        r == is_result(path@),
{
    match file_name(path) {
        Some(name) => {
            if !starts_with(name.as_str(), "gen_") {
                return false;
            }
            match extension(path) {
                Some(ext) => same(ext.as_str(), "png") || same(ext.as_str(), "mp4"),
                None => false,
            }
        },
        None => false,
    }
}

/// What is read from the file of a personal asset.
pub struct AssetFile {
    /// The size, where the file is there.
    pub bytes: Option<u64>,
    /// The width and the height, where the file has a picture.
    pub dimensions: Option<(u32, u32)>,
    /// The length in thousandths of a second, where it is known.
    pub duration_ms: Option<u64>,
    /// The small picture that stands for the file.
    pub thumbnail: Json,
}

/// An asset with what was read from its file.
pub open spec fn described(asset: JsonModel, file: AssetFile) -> JsonModel {
    let there = file.bytes is Some;
    let a1 = asset.with("available"@, JsonModel::Bool(there)).with(
        "bytes"@,
        crate::json::int_model(
            match file.bytes {
                Some(n) => n as int,
                None => 0,
            },
        ),
    );
    let a2 = match file.dimensions {
        Some((w, h)) => if there {
            a1.with("media_width"@, crate::json::int_model(w as int)).with(
                "media_height"@,
                crate::json::int_model(h as int),
            )
        } else {
            a1
        },
        None => a1,
    };
    let a3 = match file.duration_ms {
        Some(n) => if there {
            a2.with("media_duration_ms"@, crate::json::int_model(n as int))
        } else {
            a2
        },
        None => a2,
    };
    if asset.at("trashed"@).as_bool() != Some(true) && asset.text("kind"@) != "audio"@ {
        a3.with("thumbnail"@, file.thumbnail@)
    } else {
        a3
    }
}

fn describe(asset: &Json, file: &AssetFile) -> (r: Json)
    requires
        asset@ is Object,
    ensures
        r@ == described(asset@, *file),
{
    let there: bool = file.bytes.is_some();
    let size: u64 = match file.bytes {
        Some(n) => n,
        None => 0,
    };
    let mut out: Json = asset.copy().with("available", Json::from_bool(there));
    out = out.with("bytes", Json::from_u64(size));
    if there {
        if let Some((w, h)) = file.dimensions {
            out = out.with("media_width", Json::from_u64(w as u64));
            out = out.with("media_height", Json::from_u64(h as u64));
        }
        if let Some(n) = file.duration_ms {
            out = out.with("media_duration_ms", Json::from_u64(n));
        }
    }
    if !is_true(asset, "trashed") && !asset.text_is("kind", "audio") {
        out = out.with("thumbnail", file.thumbnail.copy());
    }
    out
}

/// The keys that assets are sorted by: the latest comes first.
pub open spec fn time_keys(assets: Seq<JsonModel>) -> Seq<KeyView> {
    Seq::new(
        assets.len(),
        |i: int|
            KeyView {
                group: 0,
                name: ""@,
                time: number_at(assets[i], "created_at"@),
                id: ""@,
            },
    )
}

/// The assets with what was read from their files, the latest first.
pub open spec fn listed_assets(assets: Seq<JsonModel>, files: Seq<AssetFile>) -> Seq<JsonModel> {
    let order = order_of(time_keys(assets));
    Seq::new(
        order.len(),
        |i: int| described(assets[order[i] as int], files[order[i] as int]),
    )
}

/// The answer of the library.
pub open spec fn library_answer(
    assets: Seq<JsonModel>,
    files: Seq<AssetFile>,
    folders: Seq<JsonModel>,
    notice: Seq<char>,
) -> JsonModel {
    JsonModel::Object(
        seq![
            ("items"@, JsonModel::Array(listed_assets(assets, files))),
            ("folders"@, JsonModel::Array(folders)),
            ("notice"@, JsonModel::Text(notice)),
        ],
    )
}

fn sort_assets(assets: &Vec<Json>) -> (r: Vec<usize>)
    ensures
        r@ == order_of(time_keys(models(assets@))),
        is_order(r@, time_keys(models(assets@))),
{
    let ghost all = models(assets@);
    let mut keys: Vec<SortKey> = Vec::new();
    let mut i: usize = 0;
    while i < assets.len()
        invariant
            i <= assets.len(),
            all == models(assets@),
            keys@.len() == i,
            forall|j: int| 0 <= j < i ==> (#[trigger] keys@[j])@ == time_keys(all)[j],
        decreases assets.len() - i,
    {
        keys.push(time_key(get_number(&assets[i], "created_at")));
        i = i + 1;
    }
    proof {
        assert(key_views(keys@) =~= time_keys(all));
    }
    arrange(&keys)
}

/// The answer of the library: its assets, the latest first, its folders, and
/// what is told.
pub fn library_result(
    assets: &Vec<Json>,
    files: &Vec<AssetFile>,
    folders: Vec<Json>,
    notice: String,
) -> (r: Json)
    requires
        files.len() == assets.len(),
        crate::cloud::uploads::are_objects(models(assets@)),
    ensures
        r@ == library_answer(models(assets@), files@, models(folders@), notice@),
{
    let ghost all = models(assets@);
    let ghost shelves = models(folders@);
    let order: Vec<usize> = sort_assets(assets);
    let mut list: Vec<Json> = Vec::new();
    let mut i: usize = 0;
    while i < order.len()
        invariant
            i <= order.len(),
            all == models(assets@),
            files.len() == assets.len(),
            crate::cloud::uploads::are_objects(all),
            is_order(order@, time_keys(all)),
            list@.len() == i,
            forall|j: int|
                0 <= j < i ==> (#[trigger] list@[j])@ == described(
                    all[order@[j] as int],
                    files@[order@[j] as int],
                ),
        decreases order.len() - i,
    {
        let at: usize = order[i];
        proof {
            assert(order@[i as int] < time_keys(all).len());
            assert(all[at as int] is Object);
        }
        list.push(describe(&assets[at], &files[at]));
        i = i + 1;
    }
    let mut fields: Vec<(String, Json)> = Vec::new();
    proof {
        assert(models(list@) =~= listed_assets(all, files@));
    }
    fields.push(("items".to_owned(), Json::from_list(list)));
    fields.push(("folders".to_owned(), Json::from_list(folders)));
    fields.push(("notice".to_owned(), Json::from_text(notice.as_str())));
    let r: Json = Json::from_members(fields);
    proof {
        assert(r@->Object_0 =~= library_answer(all, files@, shelves, notice@)->Object_0);
    }
    r
}

/// The answer lists every asset once, a later one never behind an earlier one.
pub proof fn later_assets_come_first(assets: Seq<JsonModel>, order: Seq<usize>, i: int, j: int)
    requires
        is_order(order, time_keys(assets)),
        0 <= i < j < order.len(),
    ensures
        order.len() == assets.len(),
        number_at(assets[order[i] as int], "created_at"@) >= number_at(
            assets[order[j] as int],
            "created_at"@,
        ),
{
    assert(crate::sort::row_less(time_keys(assets), order[i] as int, order[j] as int));
}

/// A request that names a file that the library does not have is refused,
/// whatever it asks for.
pub proof fn unknown_files_are_refused(req: RequestView)
    requires
        req.body.text("id"@).len() > 0,
    ensures
        operation_of(req, false) is Err,
{
}

} // verus!
