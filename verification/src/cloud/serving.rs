//! Requests, files and what answers them, seen from outside.

use crate::cloud::catalog::{CatalogView, FormView};
use crate::cloud::generation::{generation_of, request_members};
use crate::cloud::imports::{import_steps, target_chosen, HandoffView, TransfersView};
use crate::cloud::intents::IntentsView;
use crate::cloud::library::{
    described, listed_assets, notice_of, operation_of, time_keys, AssetFile, OpView,
};
use crate::cloud::personal::number_at;
use crate::cloud::picker::is_here;
use crate::cloud::preview::{
    personal_item, preview_failed, preview_finished, preview_set, team_item, PreviewView,
};
use crate::cloud::references::{add_fault, kind_of_path, label_of_kind, number_of};
use crate::cloud::requests::{
    answered_body, failure_of, job_started, member_otherwise, message_headers, named_otherwise,
    needs_session, next_taken, plain_request, refusal, replaces_waiting, route_of, ErrorView,
    FailureView, JobStartView, QueueView, RequestView,
};
use crate::cloud::rows::ItemRow;
use crate::cloud::steps::StepView;
use crate::cloud::studio::StudioView;
use crate::cloud::uploads::{reference_rows, replacement_refused, upload_planned};
use crate::cloud_files::{
    base_of, headers_of, is_forbidden_header, media_type_of, upload_request_of,
};
use crate::json::{int_model, lookup, replaced, set_members_are_found, JsonModel};
use crate::lists::{any, kept, kept_satisfies, text_is};
use crate::paths::file_name_of;
use crate::sort::{order_of, orders_exist, row_less, text_less_total};
use crate::text::{decimal, has_prefix};
use crate::urls::{is_loopback, UrlView};
use vstd::prelude::*;

verus! {

/// The errands of the library are told apart.
proof fn errands_differ()
    ensures
        "local:library-move"@.len() == 18 && "local:library-move"@[14] == 'm',
        "local:library-list"@.len() == 18 && "local:library-list"@[14] == 'l',
        "local:library-trash"@.len() == 19,
        "local:library-import"@.len() == 20 && "local:library-import"@[14] == 'i',
        "local:library-rename"@.len() == 20 && "local:library-rename"@[14] == 'r',
        "local:library-restore"@.len() == 21,
        "local:library-register"@.len() == 22 && "local:library-register"@[14] == 'r',
        "local:library-favorite"@.len() == 22 && "local:library-favorite"@[14] == 'f',
        "local:library-create-folder"@.len() == 27,
        "local:library-trash-selected"@.len() == 28,
        "local:library-restore-selected"@.len() == 30,
{
    reveal_strlit("local:library-import");
    reveal_strlit("local:library-register");
    reveal_strlit("local:library-rename");
    reveal_strlit("local:library-trash");
    reveal_strlit("local:library-restore");
    reveal_strlit("local:library-favorite");
    reveal_strlit("local:library-create-folder");
    reveal_strlit("local:library-move");
    reveal_strlit("local:library-trash-selected");
    reveal_strlit("local:library-restore-selected");
    reveal_strlit("local:library-list");
}

/// The library does what it is asked to: an errand is carried out on the file,
/// the files, the folder and the name that came with it.
pub proof fn errands_are_carried_out(body: JsonModel, method: Seq<char>)
    ensures
        ({
            let id = body.text("id"@);
            let ids = crate::cloud::library::texts_of(body.list("ids"@));
            let done = |path: Seq<char>| operation_of(plain_request(method, path, body), true);
            &&& done("local:library-import"@) == Ok::<OpView, Seq<char>>(
                OpView::Import(body.text("path"@)),
            )
            &&& done("local:library-rename"@) == Ok::<OpView, Seq<char>>(
                OpView::Rename(id, body.text("name"@)),
            )
            &&& done("local:library-trash"@) == Ok::<OpView, Seq<char>>(OpView::Trash(id))
            &&& done("local:library-restore"@) == Ok::<OpView, Seq<char>>(OpView::Restore(id))
            &&& done("local:library-favorite"@) == Ok::<OpView, Seq<char>>(
                OpView::Favorite(id, body.at("favorite"@) == JsonModel::Bool(true)),
            )
            &&& done("local:library-create-folder"@) == Ok::<OpView, Seq<char>>(
                OpView::CreateFolder(body.text("name"@)),
            )
            &&& done("local:library-trash-selected"@) == Ok::<OpView, Seq<char>>(
                OpView::SetTrashed(ids, true),
            )
            &&& done("local:library-restore-selected"@) == Ok::<OpView, Seq<char>>(
                OpView::SetTrashed(ids, false),
            )
            &&& done("local:library-list"@) == Ok::<OpView, Seq<char>>(OpView::List)
            &&& done("local:library-move"@) matches Ok(OpView::Move(list, folder)) && list == ids
                && (body.text("folder_id"@).len() > 0 ==> folder == Some(body.text("folder_id"@)))
                && (body.text("folder_id"@).len() == 0 ==> folder is None)
        }),
{
    errands_differ();
}

/// The words after an errand say what was done.
pub proof fn errands_are_told(id: Seq<char>, ids: Seq<Seq<char>>, changed: nat)
    ensures
        notice_of(OpView::Trash(id), changed) == "已移入回收站"@,
        notice_of(OpView::Restore(id), changed) == "已恢复资产"@,
        notice_of(OpView::Favorite(id, true), changed) == "已收藏"@,
        notice_of(OpView::Favorite(id, false), changed) == "已取消收藏"@,
        notice_of(OpView::SetTrashed(ids, true), changed) == "已回收 "@ + decimal(changed)
            + " 项资产"@,
        notice_of(OpView::SetTrashed(ids, false), changed) == "已恢复 "@ + decimal(changed)
            + " 项资产"@,
{
}

/// The marks of a file are told apart.
proof fn marks_differ()
    ensures
        "id"@.len() == 2,
        "name"@.len() == 4 && "name"@[0] == 'n',
        "kind"@.len() == 4 && "kind"@[0] == 'k',
        "bytes"@.len() == 5,
        "available"@.len() == 9 && "available"@[0] == 'a',
        "thumbnail"@.len() == 9 && "thumbnail"@[0] == 't',
        "media_width"@.len() == 11,
        "media_height"@.len() == 12,
        "media_duration_ms"@.len() == 17,
{
    reveal_strlit("available");
    reveal_strlit("bytes");
    reveal_strlit("media_width");
    reveal_strlit("media_height");
    reveal_strlit("media_duration_ms");
    reveal_strlit("thumbnail");
    reveal_strlit("id");
    reveal_strlit("name");
    reveal_strlit("kind");
}

/// A file is listed with what is known of it: whether it is there, how large it
/// is, its width and its height, each under its own name; what it was stays.
pub proof fn files_are_described(asset: JsonModel, file: AssetFile, bytes: u64, size: (u32, u32))
    requires
        asset is Object,
        file.bytes == Some(bytes),
        file.dimensions == Some(size),
    ensures
        ({
            let v = described(asset, file);
            &&& v.at("available"@) == JsonModel::Bool(true)
            &&& number_at(v, "bytes"@) == bytes
            &&& number_at(v, "media_width"@) == size.0
            &&& number_at(v, "media_height"@) == size.1
            &&& file.duration_ms matches Some(ms) ==> number_at(v, "media_duration_ms"@) == ms
            &&& v.at("id"@) == asset.at("id"@) && v.at("name"@) == asset.at("name"@) && v.at(
                "kind"@,
            ) == asset.at("kind"@)
        }),
{
    marks_differ();
    let a0 = asset.with("available"@, JsonModel::Bool(true));
    let a1 = a0.with("bytes"@, int_model(bytes as int));
    let b0 = a1.with("media_width"@, int_model(size.0 as int));
    let a2 = b0.with("media_height"@, int_model(size.1 as int));
    set_members_are_found(asset, "available"@, JsonModel::Bool(true));
    set_members_are_found(a0, "bytes"@, int_model(bytes as int));
    set_members_are_found(a1, "media_width"@, int_model(size.0 as int));
    set_members_are_found(b0, "media_height"@, int_model(size.1 as int));
    let a3 = match file.duration_ms {
        Some(n) => {
            set_members_are_found(a2, "media_duration_ms"@, int_model(n as int));
            a2.with("media_duration_ms"@, int_model(n as int))
        },
        None => a2,
    };
    set_members_are_found(a3, "thumbnail"@, file.thumbnail@);
}

/// A file that is gone is listed as such.
pub proof fn missing_files_are_marked(asset: JsonModel, file: AssetFile)
    requires
        asset is Object,
        file.bytes is None,
    ensures
        described(asset, file).at("available"@) == JsonModel::Bool(false),
{
    marks_differ();
    let a0 = asset.with("available"@, JsonModel::Bool(false));
    let a1 = a0.with("bytes"@, int_model(0));
    set_members_are_found(asset, "available"@, JsonModel::Bool(false));
    set_members_are_found(a0, "bytes"@, int_model(0));
    set_members_are_found(a1, "thumbnail"@, file.thumbnail@);
}

/// The library lists every file once, the latest first, each with what is known
/// of that file.
pub proof fn libraries_list_the_latest_first(
    assets: Seq<JsonModel>,
    files: Seq<AssetFile>,
    i: int,
    j: int,
) -> (places: (int, int))
    requires
        assets.len() <= usize::MAX,
        0 <= i < j < listed_assets(assets, files).len(),
    ensures
        ({
            let list = listed_assets(assets, files);
            let (a, b) = places;
            &&& list.len() == assets.len()
            &&& 0 <= a < assets.len() && 0 <= b < assets.len() && a != b
            &&& list[i] == described(assets[a], files[a]) && list[j] == described(
                assets[b],
                files[b],
            )
            &&& number_at(assets[a], "created_at"@) >= number_at(assets[b], "created_at"@)
        }),
{
    let keys = time_keys(assets);
    orders_exist(keys);
    let order = order_of(keys);
    assert(row_less(keys, order[i] as int, order[j] as int));
    text_less_total(""@, ""@);
    (order[i] as int, order[j] as int)
}

/// A request carries the session where there is one, and its key where it has
/// one.
pub proof fn requests_carry_session_and_key(token: Seq<char>, key: Seq<char>)
    requires
        token.len() > 0,
    ensures
        message_headers(token, None) == seq![("Authorization"@, "Bearer "@ + token)],
        message_headers(token, Some(key)) == seq![
            ("Authorization"@, "Bearer "@ + token),
            ("Idempotency-Key"@, key),
        ],
        message_headers(Seq::empty(), None).len() == 0,
        message_headers(Seq::empty(), Some(key)) == seq![("Idempotency-Key"@, key)],
{
    assert(message_headers(token, Some(key)) =~= seq![
        ("Authorization"@, "Bearer "@ + token),
        ("Idempotency-Key"@, key),
    ]);
    assert(message_headers(Seq::empty(), Some(key)) =~= seq![("Idempotency-Key"@, key)]);
}

/// A request that may be sent runs at once where nothing runs, and waits behind
/// all others where something does.
pub proof fn requests_run_one_at_a_time(
    queue: QueueView,
    name: Seq<char>,
    req: RequestView,
    signed_in: bool,
)
    requires
        signed_in || !needs_session(req.path),
    ensures
        ({
            let (start, now, _) = job_started(queue, signed_in, name, req);
            &&& !queue.busy ==> (start matches JobStartView::Running(sent, _) && sent == req)
                && now.busy && now.active_name == name && now.pending == queue.pending
            &&& queue.busy ==> start is Waiting && now.busy && now.active_name
                == queue.active_name && now.pending.last() == (name, req)
            &&& now.epoch == queue.epoch
        }),
{
}

/// The stations are told apart.
proof fn stations()
    ensures
        "local:upload"@.len() == 12,
        "local:download"@.len() == 14 && "local:download"@[6] == 'd',
        "local:library-"@.len() == 14 && "local:library-"@[6] == 'l',
        "local:export-copy"@.len() == 17,
{
    reveal_strlit("local:export-copy");
    reveal_strlit("local:upload");
    reveal_strlit("local:download");
    reveal_strlit("local:library-");
}

/// A request goes to its own station: copies, files that are sent and fetched,
/// the library; everything else to the service.
pub proof fn requests_go_to_their_station(path: Seq<char>, errand: Seq<char>)
    ensures
        route_of("local:export-copy"@) is ExportCopy,
        route_of("local:upload"@) is Upload,
        route_of("local:download"@) is Download,
        route_of("local:library-"@ + errand) is Library,
        path.len() > 0 && path[0] == '/' ==> route_of(path) is Service,
{
    stations();
    reveal_strlit("local:export-copy");
    reveal_strlit("local:upload");
    reveal_strlit("local:download");
    reveal_strlit("local:library-");
    assert("local:library-"@[8] == 'b');
    assert("local:upload"@[8] == 'l');
    assert("local:download"@[8] == 'w');
    assert("local:export-copy"@[8] == 'p');
    assert("local:library-"@[0] == 'l');
    assert("local:upload"@[0] == 'l');
    assert("local:download"@[0] == 'l');
    assert("local:export-copy"@[0] == 'l');
    let home = "local:library-"@;
    let full = home + errand;
    assert(full.subrange(0, 14) =~= home);
    assert(full[8] == 'b');
    if has_prefix("local:upload"@, home) {
        assert("local:upload"@.len() == 12);
    }
    if has_prefix("local:download"@, home) {
        assert("local:download"@.subrange(0, 14)[8] == 'w');
    }
    if has_prefix("local:export-copy"@, home) {
        assert("local:export-copy"@.subrange(0, 14)[8] == 'p');
    }
    if path.len() > 0 && path[0] == '/' && has_prefix(path, home) {
        assert(path.subrange(0, 14)[0] == path[0]);
    }
}

/// What the service refuses is told with its own words, and how long to wait is
/// held to an hour.
pub proof fn refusals_are_told(status: u16, body: JsonModel, message: Seq<char>, seconds: i64)
    requires
        body.at("error"@).at("message"@) == JsonModel::Text(message),
        body.at("error"@).at("retry_after"@).as_i64() == Some(seconds),
        !has_prefix(body.at("error"@).text("code"@), "GENERATION_ASSET_"@),
    ensures
        ({
            let e = refusal(status, body);
            &&& e.status == status
            &&& e.message == message
            &&& e.code == body.at("error"@).text("code"@)
            &&& 0 <= seconds <= 3600 ==> e.retry_after == seconds
            &&& seconds < 0 ==> e.retry_after == 0
            &&& seconds > 3600 ==> e.retry_after == 3600
        }),
{
}

/// A quote is answered for exactly what would be generated: what was added to
/// ask for it is taken off again.
pub proof fn quotes_are_answered_for_the_request(
    form: FormView,
    prompt: Seq<char>,
    catalog: CatalogView,
    references: Seq<JsonModel>,
    kind: JsonModel,
)
    requires
        generation_of(form, prompt, catalog, references).get("kind"@) is None,
    ensures
        ({
            let body = generation_of(form, prompt, catalog, references);
            answered_body("quote"@, body.with("kind"@, kind)) == body
        }),
{
    let body = generation_of(form, prompt, catalog, references);
    request_members(form, prompt, catalog, references);
    let entries = body->Object_0;
    added_last(entries, "kind"@, kind);
    others_are_kept(entries, "kind"@);
    let more = entries.push(("kind"@, kind));
    assert(more.drop_last() =~= entries);
    assert(kept(more, member_otherwise("kind"@)) == kept(entries, member_otherwise("kind"@)));
}

proof fn added_last(entries: Seq<(Seq<char>, JsonModel)>, key: Seq<char>, value: JsonModel)
    requires
        lookup(entries, key) is None,
    ensures
        replaced(entries, key, value) == entries.push((key, value)),
    decreases entries.len(),
{
    if entries.len() > 0 {
        added_last(entries.drop_first(), key, value);
        assert(seq![entries[0]] + entries.drop_first().push((key, value)) =~= entries.push(
            (key, value),
        ));
    } else {
        assert(entries.push((key, value)) =~= seq![(key, value)]);
    }
}

proof fn others_are_kept(entries: Seq<(Seq<char>, JsonModel)>, key: Seq<char>)
    requires
        lookup(entries, key) is None,
    ensures
        kept(entries, member_otherwise(key)) == entries,
    decreases entries.len(),
{
    missing_everywhere(entries, key);
    all_are_kept(entries, key);
}

proof fn missing_everywhere(entries: Seq<(Seq<char>, JsonModel)>, key: Seq<char>)
    requires
        lookup(entries, key) is None,
    ensures
        forall|i: int| 0 <= i < entries.len() ==> (#[trigger] entries[i]).0 != key,
    decreases entries.len(),
{
    if entries.len() > 0 {
        let rest = entries.drop_first();
        missing_everywhere(rest, key);
        assert forall|i: int| 0 <= i < entries.len() implies (#[trigger] entries[i]).0 != key by {
            if i > 0 {
                assert(rest[i - 1] == entries[i]);
            }
        }
    }
}

proof fn all_are_kept(entries: Seq<(Seq<char>, JsonModel)>, key: Seq<char>)
    requires
        forall|i: int| 0 <= i < entries.len() ==> (#[trigger] entries[i]).0 != key,
    ensures
        kept(entries, member_otherwise(key)) == entries,
    decreases entries.len(),
{
    if entries.len() > 0 {
        all_are_kept(entries.drop_last(), key);
        assert(entries.drop_last().push(entries.last()) =~= entries);
    } else {
        assert(kept(entries, member_otherwise(key)) =~= entries);
    }
}

/// The endings of files are told apart.
proof fn file_endings()
    ensures
        ""@.len() == 0,
        "png"@.len() == 3 && "png"@[1] == 'n' && "png"@[2] == 'g',
        "jpg"@.len() == 3 && "jpg"@[1] == 'p' && "jpg"@[2] == 'g',
        "gif"@.len() == 3 && "gif"@[1] == 'i' && "gif"@[2] == 'f',
        "mp4"@.len() == 3 && "mp4"@[1] == 'p' && "mp4"@[2] == '4',
        "m4v"@.len() == 3 && "m4v"@[1] == '4' && "m4v"@[2] == 'v',
        "mov"@.len() == 3 && "mov"@[1] == 'o' && "mov"@[2] == 'v',
        "mp3"@.len() == 3 && "mp3"@[1] == 'p' && "mp3"@[2] == '3',
        "wav"@.len() == 3 && "wav"@[1] == 'a' && "wav"@[2] == 'v',
        "m4a"@.len() == 3 && "m4a"@[1] == '4' && "m4a"@[2] == 'a',
        "jpeg"@.len() == 4 && "jpeg"@[3] == 'g',
        "webp"@.len() == 4 && "webp"@[3] == 'p',
        "webm"@.len() == 4 && "webm"@[3] == 'm',
{
    reveal_strlit("");
    reveal_strlit("png");
    reveal_strlit("jpg");
    reveal_strlit("jpeg");
    reveal_strlit("webp");
    reveal_strlit("gif");
    reveal_strlit("mp4");
    reveal_strlit("m4v");
    reveal_strlit("mov");
    reveal_strlit("webm");
    reveal_strlit("mp3");
    reveal_strlit("wav");
    reveal_strlit("m4a");
}

/// A file is sent as what it is: what is used as a picture is sent as one, and
/// so are films and sound.
pub proof fn files_are_sent_as_what_they_are(path: Seq<char>)
    ensures
        kind_of_path(path) == "image"@ ==> (media_type_of(path) matches Some(t) && has_prefix(
            t,
            "image/"@,
        )),
        kind_of_path(path) == "video"@ ==> (media_type_of(path) matches Some(t) && has_prefix(
            t,
            "video/"@,
        )),
        kind_of_path(path) == "audio"@ ==> (media_type_of(path) matches Some(t) && has_prefix(
            t,
            "audio/"@,
        )),
{
    file_endings();
    crate::cloud::asking::media_differ();
    reveal_strlit("image/");
    reveal_strlit("video/");
    reveal_strlit("audio/");
    reveal_strlit("image/png");
    reveal_strlit("image/jpeg");
    reveal_strlit("image/webp");
    reveal_strlit("video/mp4");
    reveal_strlit("video/quicktime");
    reveal_strlit("audio/mpeg");
    reveal_strlit("audio/wav");
    assert("image/png"@.subrange(0, 6) =~= "image/"@);
    assert("image/jpeg"@.subrange(0, 6) =~= "image/"@);
    assert("image/webp"@.subrange(0, 6) =~= "image/"@);
    assert("video/mp4"@.subrange(0, 6) =~= "video/"@);
    assert("video/quicktime"@.subrange(0, 6) =~= "video/"@);
    assert("audio/mpeg"@.subrange(0, 6) =~= "audio/"@);
    assert("audio/wav"@.subrange(0, 6) =~= "audio/"@);
}

/// A service is one that is reached securely: over a secure connection, or on
/// this machine; without a name, a password, a query or a path.
pub proof fn services_are_secure(parsed: UrlView)
    ensures
        base_of(Some(parsed)) matches Ok(u) ==> u == parsed && (u.scheme == "https"@ || (u.scheme
            == "http"@ && u.host is Some && is_loopback(u.host->0))) && u.username.len() == 0
            && u.password is None && u.query is None,
        parsed.scheme == "https"@ && parsed.username.len() == 0 && parsed.password is None
            && parsed.query is None && parsed.fragment is None && parsed.path == "/"@ ==> base_of(
            Some(parsed),
        ) is Ok,
        base_of(None) is Err,
{
}

/// What the service asks to be sent along is sent as it is, but for what would
/// speak for somebody else; without a word the type of the file is sent.
pub proof fn headers_are_sent_as_asked(
    info: JsonModel,
    entries: Seq<(Seq<char>, JsonModel)>,
    content_type: Seq<char>,
    i: int,
)
    requires
        info.at("required_headers"@) == JsonModel::Object(entries),
        0 <= i < entries.len(),
    ensures
        is_forbidden_header(entries[i].0) ==> headers_of(info, content_type) is Err,
        headers_of(info, content_type) matches Ok(list) ==> list.len() == entries.len()
            && list[i].0 == entries[i].0 && JsonModel::Text(list[i].1) == entries[i].1,
        headers_of(JsonModel::Null, content_type) == Ok::<Seq<(Seq<char>, Seq<char>)>, Seq<char>>(
            seq![("Content-Type"@, content_type)],
        ),
{
    no_fault_before(entries, 0, i);
}

proof fn no_fault_before(entries: Seq<(Seq<char>, JsonModel)>, from: int, i: int)
    requires
        0 <= from <= i < entries.len(),
    ensures
        crate::cloud_files::header_fault(entries, from) is None ==> !is_forbidden_header(
            entries[i].0,
        ) && entries[i].1 is Text,
    decreases i - from,
{
    if from < i {
        no_fault_before(entries, from + 1, i);
    }
}

/// A file that is sent says what it is for, whose it is, its name and its size;
/// one that is empty or of no known type is not sent.
pub proof fn uploads_say_what_they_are(
    path: Seq<char>,
    size: u64,
    purpose: Seq<char>,
    team: Seq<char>,
    interface: UrlView,
)
    ensures
        ({
            let r = upload_request_of(path, true, size, purpose, Some(team), Some(interface));
            &&& size == 0 ==> r is Err
            &&& media_type_of(path) is None ==> r is Err
            &&& r matches Ok((url, body, kind)) ==> url == interface.text && Some(kind)
                == media_type_of(path) && body == JsonModel::Object(
                seq![
                    ("purpose"@, JsonModel::Text(purpose)),
                    ("team_id"@, JsonModel::Text(team)),
                    ("filename"@, JsonModel::Text(file_name_of(path)->0)),
                    ("content_type"@, JsonModel::Text(kind)),
                    ("size_bytes"@, int_model(size as int)),
                ],
            )
            &&& upload_request_of(path, false, size, purpose, Some(team), Some(interface)) is Err
        }),
{
    let r = upload_request_of(path, true, size, purpose, Some(team), Some(interface));
    if let Ok((url, body, kind)) = r {
        assert(body->Object_0 =~= seq![
            ("purpose"@, JsonModel::Text(purpose)),
            ("team_id"@, JsonModel::Text(team)),
            ("filename"@, JsonModel::Text(file_name_of(path)->0)),
            ("content_type"@, JsonModel::Text(kind)),
            ("size_bytes"@, int_model(size as int)),
        ]);
    }
}

/// What a file is sent for is told apart.
proof fn causes()
    ensures
        ""@.len() == 0,
        "team_asset"@.len() == 10,
        "generation_input"@.len() == 16,
{
    reveal_strlit("team_asset");
    reveal_strlit("generation_input");
    reveal_strlit("");
}

/// A file that is taken as a reference comes last, as what it is, and is sent;
/// the ones before it stay. A file that is there already, and one that the
/// model does not take, is not added.
pub proof fn references_are_added_last(
    studio: StudioView,
    intents: IntentsView,
    assets: Seq<JsonModel>,
    local: Map<Seq<char>, Seq<char>>,
    path: Seq<char>,
    client_id: Seq<char>,
)
    requires
        studio.signed_in,
    ensures
        ({
            let (now, after, steps) = upload_planned(
                studio,
                intents,
                assets,
                local,
                path,
                "generation_input"@,
                ""@,
                client_id,
            );
            let known = any(studio.references, text_is("local_path"@, path));
            let fault = add_fault(
                studio.form.mode,
                studio.form.model_index,
                studio.catalog,
                studio.references,
                kind_of_path(path),
            );
            &&& known || fault is Some ==> now == studio.references
            &&& !known && fault is Some ==> steps == seq![StepView::Error(fault->0)]
            &&& !known && fault is None ==> now.len() == studio.references.len() + 1
                && now.drop_last() == studio.references && now.last() == JsonModel::Object(
                seq![
                    ("client_id"@, JsonModel::Text(client_id)),
                    ("local_path"@, JsonModel::Text(path)),
                    ("kind"@, JsonModel::Text(kind_of_path(path))),
                    (
                        "display_name"@,
                        JsonModel::Text(
                            crate::cloud::uploads::shown_name_of(assets, local, path),
                        ),
                    ),
                    ("status"@, JsonModel::Text("uploading"@)),
                ],
            ) && (steps.last() matches StepView::Job(name, r) && name == "reference:"@ + client_id
                && r.path == "local:upload"@)
            &&& after == intents
        }),
{
    causes();
    let now = upload_planned(
        studio,
        intents,
        assets,
        local,
        path,
        "generation_input"@,
        ""@,
        client_id,
    ).0;
    if now.len() == studio.references.len() + 1 {
        assert(now.drop_last() =~= studio.references);
    }
}

/// A file for a team goes to that team, and to none where none is open.
pub proof fn team_files_go_to_the_team(
    studio: StudioView,
    intents: IntentsView,
    assets: Seq<JsonModel>,
    local: Map<Seq<char>, Seq<char>>,
    path: Seq<char>,
    team: Seq<char>,
    client_id: Seq<char>,
)
    requires
        studio.signed_in,
    ensures
        ({
            let (now, after, steps) = upload_planned(
                studio,
                intents,
                assets,
                local,
                path,
                "team_asset"@,
                team,
                client_id,
            );
            &&& now == studio.references && after == intents
            &&& team.len() == 0 ==> steps.len() == 1 && steps[0] is Error
            &&& team.len() > 0 ==> (steps.last() matches StepView::Job(name, r) && name
                == "asset-change"@ && r.body == JsonModel::Object(
                seq![
                    ("path"@, JsonModel::Text(path)),
                    ("client_id"@, JsonModel::Text(""@)),
                    ("purpose"@, JsonModel::Text("team_asset"@)),
                    ("team"@, JsonModel::Text(team)),
                ],
            ))
        }),
{
    causes();
}

/// The conditions of a reference are told apart.
proof fn conditions()
    ensures
        "ready"@.len() == 5,
        "failed"@.len() == 6,
        "expired"@.len() == 7 && "expired"@[0] == 'e',
        "missing"@.len() == 7 && "missing"@[0] == 'm',
        "unknown"@.len() == 7 && "unknown"@[0] == 'u',
        "uploading"@.len() == 9,
{
    reveal_strlit("ready");
    reveal_strlit("failed");
    reveal_strlit("expired");
    reveal_strlit("missing");
    reveal_strlit("uploading");
    reveal_strlit("unknown");
}

/// A reference is shown as it stands, under the mention that names it.
pub proof fn references_are_shown_as_they_stand(references: Seq<JsonModel>, i: int)
    requires
        0 <= i < references.len(),
    ensures
        ({
            let v = references[i];
            let row = reference_rows(references)[i];
            let status = v.text("status"@);
            &&& reference_rows(references).len() == references.len()
            &&& row.id == v.text("client_id"@) && row.name == v.text("display_name"@) && row.kind
                == v.text("kind"@)
            &&& row.detail == "@["@ + label_of_kind(v.text("kind"@)) + decimal(
                number_of(references, i),
            ) + "]"@
            &&& row.ready <==> status == "ready"@
            &&& row.missing <==> status == "missing"@
            &&& status == "failed"@ ==> row.status == "上传失败"@
            &&& status == "expired"@ ==> row.status == "已过期"@
            &&& status == "missing"@ ==> row.status == "缺少文件，可替换"@
            &&& status == "uploading"@ ==> row.status == "上传中"@
            &&& status == "ready"@ && v.text("kind"@) == "image"@ ==> row.status == "图片"@
        }),
{
    conditions();
}

/// A reference is replaced by a file of its own medium only, one whose medium
/// is not known by any.
pub proof fn replacements_are_of_the_same_medium(
    references: Seq<JsonModel>,
    client_id: Seq<char>,
    path: Seq<char>,
    i: int,
)
    requires
        crate::cloud::references::place_of_client(references, client_id) == Some(i),
    ensures
        ({
            let kind = references[i].text("kind"@);
            let refused = replacement_refused(references, client_id, path, true);
            &&& kind != "unknown"@ && kind_of_path(path) != kind ==> refused is Some
            &&& kind_of_path(path) == "image"@ && (kind == "image"@ || kind == "unknown"@)
                ==> refused is None
            &&& kind_of_path(path) == "unsupported"@ ==> refused is Some
            &&& replacement_refused(references, client_id, path, false) is Some
        }),
{
    crate::cloud::asking::media_differ();
}

/// Where something can go is told apart.
proof fn targets()
    ensures
        "new"@.len() == 3,
        "clip"@.len() == 4,
        "canvas"@.len() == 6,
        "current"@.len() == 7 && "current"@[0] == 'c',
        "recent:"@.len() == 7 && "recent:"@[0] == 'r',
{
    reveal_strlit("new");
    reveal_strlit("current");
    reveal_strlit("recent:");
    reveal_strlit("canvas");
    reveal_strlit("clip");
}

/// What is handed on goes where it is sent: to a new canvas, to the open one, or
/// to an earlier one by its path; to the open project at once, to a new one
/// when it is there. A place that was not offered is refused.
pub proof fn handed_files_go_where_they_are_sent(
    transfers: TransfersView,
    h: HandoffView,
    id: Seq<char>,
    path: Seq<char>,
)
    requires
        transfers.handoff == Some(h),
    ensures
        ({
            let (now, steps) = target_chosen(transfers, false, id);
            let offered = crate::cloud::imports::has_target(transfers.targets, id);
            &&& !offered ==> now == transfers && steps.len() == 1 && steps[0] is Error
            &&& offered && h.kind == "canvas"@ && id == "new"@ ==> steps.last()
                == StepView::CanvasNew(h.imports) && !now.open
            &&& offered && h.kind == "canvas"@ && id == "current"@ ==> steps.last()
                == StepView::CanvasCurrent(h.imports) && !now.open
            &&& offered && h.kind == "canvas"@ && id == "recent:"@ + path ==> steps.last()
                == StepView::CanvasOpen(path, h.imports) && !now.open
            &&& offered && h.kind == "clip"@ && id == "current"@ ==> steps == import_steps(
                h.imports,
            ) && now.handoff is None && !now.open
            &&& offered && h.kind == "clip"@ && id == "new"@ ==> now.handoff == Some(
                HandoffView { awaiting_new_project: true, ..h },
            ) && steps.last() == StepView::ClipCreateOpen(true)
            &&& offered && h.kind == "clip"@ && id == "recent:"@ + path ==> steps == seq![
                StepView::OpenRecentClip(path),
            ]
        }),
{
    targets();
    reveal_strlit("recent:");
    reveal_strlit("new");
    reveal_strlit("current");
    assert("recent:"@[0] == 'r');
    assert("new"@[0] == 'n');
    assert("current"@[0] == 'c');
    let full = "recent:"@ + path;
    assert(full[0] == 'r');
    assert(full.subrange(0, 7) =~= "recent:"@);
    assert(full.subrange(7, full.len() as int) =~= path);
    assert(full.skip(7) =~= path);
}

/// A preview opens with a number of its own; the file that arrives for it is
/// shown, and what arrives for another is not.
pub proof fn previews_show_their_own_file(
    preview: PreviewView,
    source: Seq<char>,
    item: ItemRow,
    path: Seq<char>,
    token: u64,
    message: Seq<char>,
)
    ensures
        ({
            let opened = preview_set(preview, source, item, true, Seq::empty());
            let shown = preview_finished(opened, item.id, path, Some(opened.token));
            let broken = preview_failed(opened, item.id, opened.token, message);
            &&& opened.open && opened.loading && opened.item.id == item.id
            &&& preview.token < u64::MAX ==> opened.token == preview.token + 1
            &&& shown.item.preview == path && shown.item.ready && !shown.loading
            &&& broken.error == message && !broken.loading && broken.item == opened.item
            &&& token != opened.token ==> preview_finished(opened, item.id, path, Some(token))
                == opened && preview_failed(opened, item.id, token, message) == opened
        }),
{
}

/// A file is previewed from where it lies, and counts as ready only where it
/// is there.
pub proof fn previews_come_from_the_file(
    asset: JsonModel,
    size: Seq<char>,
    present: Set<Seq<char>>,
    local: Map<Seq<char>, Seq<char>>,
)
    ensures
        ({
            let own = personal_item(asset, size, present);
            let team = team_item(asset, local, present);
            let id = asset.text("id"@);
            &&& own.preview == asset.text("path"@) && own.name == asset.text("name"@)
            &&& own.ready <==> asset.at("available"@) == JsonModel::Bool(true)
                && present.contains(asset.text("path"@))
            &&& team.name == asset.text("filename"@) && team.id == id
            &&& is_here(local, present, id) ==> team.preview == local[id]
            &&& team.ready ==> is_here(local, present, id)
        }),
{
}

/// Requests that wait are sent in the order in which they came; one that takes
/// the place of an earlier one of its name leaves no other of it waiting.
pub proof fn requests_wait_in_order(
    queue: QueueView,
    name: Seq<char>,
    req: RequestView,
    signed_in: bool,
)
    requires
        queue.busy,
        signed_in || !needs_session(req.path),
    ensures
        ({
            let now = job_started(queue, signed_in, name, req).1;
            let first = next_taken(queue).0;
            &&& queue.pending.len() > 0 ==> first == Some(queue.pending[0]) && next_taken(
                queue,
            ).1.pending.len() == queue.pending.len() - 1
            &&& queue.pending.len() == 0 ==> first is None && next_taken(now).0 == Some((name, req))
            &&& !replaces_waiting(name) && queue.pending.len() > 0 ==> next_taken(now).0 == first
            &&& now.pending.last() == (name, req)
            &&& replaces_waiting(name) ==> forall|i: int|
                0 <= i < now.pending.len() - 1 ==> (#[trigger] now.pending[i]).0 != name
        }),
{
    let waiting = kept(queue.pending, named_otherwise(name));
    kept_satisfies(queue.pending, named_otherwise(name));
    if queue.pending.len() == 0 {
        assert(waiting.len() == 0);
    }
    let now = job_started(queue, signed_in, name, req).1;
    if replaces_waiting(name) {
        assert forall|i: int| 0 <= i < now.pending.len() - 1 implies (#[trigger] now.pending[i]).0
            != name by {
            assert(now.pending[i] == waiting[i]);
        }
    }
}

/// The jobs that fail are told apart.
proof fn failing_jobs_differ()
    ensures
        "login"@.len() == 5 && "login"@[0] == 'l',
        "quote"@.len() == 5 && "quote"@[0] == 'q',
        "logout"@.len() == 6,
        "register"@.len() == 8 && "register"@[0] == 'r',
        "generate"@.len() == 8 && "generate"@[0] == 'g',
        "export-copy"@.len() == 11,
        "verify-email"@.len() == 12 && "verify-email"@[0] == 'v',
        "picker-batch"@.len() == 12 && "picker-batch"@[0] == 'p',
        "verification-resend"@.len() == 19,
        "password-reset-request"@.len() == 22 && "password-reset-request"@[15] == 'r',
        "password-reset-confirm"@.len() == 22 && "password-reset-confirm"@[15] == 'c',
{
    reveal_strlit("login");
    reveal_strlit("register");
    reveal_strlit("verify-email");
    reveal_strlit("verification-resend");
    reveal_strlit("password-reset-request");
    reveal_strlit("password-reset-confirm");
    reveal_strlit("logout");
    reveal_strlit("export-copy");
    reveal_strlit("quote");
    reveal_strlit("generate");
    reveal_strlit("picker-batch");
}

/// The codes of failures are told apart.
proof fn codes_differ()
    ensures
        "EMAIL_NOT_VERIFIED"@.len() == 18,
        "EMAIL_ALREADY_REGISTERED"@.len() == 24,
        "EMAIL_DELIVERY_UNAVAILABLE"@.len() == 26,
{
    reveal_strlit("EMAIL_NOT_VERIFIED");
    reveal_strlit("EMAIL_ALREADY_REGISTERED");
    reveal_strlit("EMAIL_DELIVERY_UNAVAILABLE");
}

/// None of them is a job of a dialog of the library.
proof fn failing_jobs_are_plain()
    ensures
        !has_prefix("login"@, "personal-dialog-"@),
        !has_prefix("register"@, "personal-dialog-"@),
        !has_prefix("verification-resend"@, "personal-dialog-"@),
        !has_prefix("password-reset-request"@, "personal-dialog-"@),
{
    reveal_strlit("personal-dialog-");
    reveal_strlit("login");
    reveal_strlit("register");
    reveal_strlit("verification-resend");
    if has_prefix("verification-resend"@, "personal-dialog-"@) {
        assert("verification-resend"@.subrange(0, 16)[0] == "verification-resend"@[0]);
    }
    reveal_strlit("password-reset-request");
    if has_prefix("password-reset-request"@, "personal-dialog-"@) {
        assert("password-reset-request"@.subrange(0, 16)[1] == "password-reset-request"@[1]);
    }
}

/// A sign-in that fails clears the password, and asks for the code where the
/// address is not verified; a registration of a known address leads back to
/// the sign-in, and one whose mail could not be sent to the code. Another code
/// can be asked for after the time that the service gives.
pub proof fn failed_forms_lead_on(error: ErrorView, signed_in: bool)
    ensures
        ({
            let after = |name: Seq<char>| failure_of(name, error, signed_in).0;
            &&& after("login"@)[0] == FailureView::ClearPassword
            &&& error.code == "EMAIL_NOT_VERIFIED"@ ==> after("login"@)[1]
                == FailureView::SwitchAuth(3)
            &&& error.code == "EMAIL_ALREADY_REGISTERED"@ ==> after("register"@)[0]
                == FailureView::SwitchAuth(0)
            &&& error.code == "EMAIL_DELIVERY_UNAVAILABLE"@ ==> after("register"@)[0]
                == FailureView::SwitchAuth(3)
            &&& error.retry_after > 0 ==> after("verification-resend"@)[0]
                == FailureView::ResendSeconds(error.retry_after)
            &&& error.retry_after > 0 ==> after("password-reset-request"@)[0]
                == FailureView::ResendSeconds(error.retry_after)
        }),
{
    failing_jobs_differ();
    failing_jobs_are_plain();
    codes_differ();
}

/// What the service keeps for an account needs a session; signing in, and what
/// is on this machine, does not.
pub proof fn accounts_need_a_session(rest: Seq<char>)
    ensures
        rest != "logout"@ ==> !needs_session("/api/auth/"@ + rest),
        !needs_session("local:library-"@ + rest),
        !needs_session("local:export-copy"@),
        !needs_session("/api/capabilities"@),
        needs_session("/api/generation/"@ + rest),
        needs_session("/api/teams/"@ + rest),
        needs_session("/api/wallet"@),
        needs_session("/api/auth/logout"@),
{
    reveal_strlit("/api/auth/");
    reveal_strlit("/api/auth/logout");
    reveal_strlit("logout");
    reveal_strlit("local:library-");
    reveal_strlit("local:export-copy");
    reveal_strlit("/api/capabilities");
    reveal_strlit("/api/generation/");
    reveal_strlit("/api/teams/");
    reveal_strlit("/api/wallet");
    let a = "/api/auth/"@ + rest;
    assert(a.subrange(0, 10) =~= "/api/auth/"@);
    if a == "/api/auth/logout"@ {
        assert(a.subrange(10, 16) =~= rest);
        assert("/api/auth/logout"@.subrange(10, 16) =~= "logout"@);
    }
    let b = "local:library-"@ + rest;
    assert(b.subrange(0, 14) =~= "local:library-"@);
    let g = "/api/generation/"@ + rest;
    assert(g[5] == 'g' && g[0] == '/');
    assert("/api/capabilities"@[5] == 'c' && "local:export-copy"@[0] == 'l');
    assert("/api/auth/"@[5] == 'a' && "local:library-"@[0] == 'l');
    if has_prefix(g, "/api/auth/"@) {
        assert(g.subrange(0, 10)[5] == g[5]);
    }
    if has_prefix(g, "local:library-"@) {
        assert(g.subrange(0, 14)[0] == g[0]);
    }
    let t = "/api/teams/"@ + rest;
    assert(t[5] == 't' && t[0] == '/');
    if has_prefix(t, "/api/auth/"@) {
        assert(t.subrange(0, 10)[5] == t[5]);
    }
    if has_prefix(t, "local:library-"@) {
        assert(t.subrange(0, 14)[0] == t[0]);
    }
    let w = "/api/wallet"@;
    assert(w[5] == 'w' && w[0] == '/' && w.len() == 11 && "/api/capabilities"@.len() == 17);
    if has_prefix(w, "/api/auth/"@) {
        assert(w.subrange(0, 10)[5] == w[5]);
    }
    let o = "/api/auth/logout"@;
    assert(o.len() == 16 && o[0] == '/' && o[5] == 'a');
    if has_prefix(o, "local:library-"@) {
        assert(o.subrange(0, 14)[0] == o[0]);
    }
}

} // verus!
