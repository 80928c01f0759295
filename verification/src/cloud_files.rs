//! Bounded, redirect-free file transfers with the service: what is sent, what
//! is accepted and what is refused. The transfers themselves are made by the
//! caller.

use crate::ids::{fresh_id, is_uuid};
use crate::json::{int_model, members, Json, JsonModel};
use crate::paths::{extension, extension_of, file_name, file_name_of};
use crate::text::{
    ascii_lowercase, cat3, decimal, outcome, same, to_ascii_lowercase, to_decimal, trim, trimmed,
    verdict,
};
use crate::urls::{
    bare, is_bare, is_same_origin, is_secure, join_url, opt_url, parse_url, same_origin,
    secure_or_loopback, url_joined, url_parsed, UrlParts, UrlView,
};
use vstd::prelude::*;
use vstd::string::*;

verus! {

/// The largest file that is downloaded.
pub const MAX_DOWNLOAD_BYTES: u64 = 536_870_912;

/// The view of a URL or an error message.
pub open spec fn url_outcome(r: Result<UrlParts, String>) -> Result<UrlView, Seq<char>> {
    match r {
        Ok(u) => Ok(u@),
        Err(e) => Err(e@),
    }
}

/// The address of the service, from what parsing it gave.
pub open spec fn base_of(parsed: Option<UrlView>) -> Result<UrlView, Seq<char>> {
    match parsed {
        None => Err("服务地址格式无效"@),
        Some(u) => if is_bare(u) && is_secure(u) {
            Ok(u)
        } else {
            Err("服务地址必须是 HTTPS 或本机回环 HTTP 地址"@)
        },
    }
}

pub fn accept_base(parsed: Option<UrlParts>) -> (r: Result<UrlParts, String>)
    ensures
        url_outcome(r) == base_of(opt_url(parsed)),
{
    match parsed {
        None => Err("服务地址格式无效".to_owned()),
        Some(u) => if bare(&u) && secure_or_loopback(&u) {
            Ok(u)
        } else {
            Err("服务地址必须是 HTTPS 或本机回环 HTTP 地址".to_owned())
        },
    }
}

pub fn checked_base(raw: &str) -> (r: Result<UrlParts, String>)
    ensures
        url_outcome(r) == base_of(url_parsed(trimmed(raw@))),
{
    let text: String = trim(raw);
    accept_base(parse_url(text.as_str()))
}

/// The address of a file, from what joining it to the service's address gave.
pub open spec fn file_url_of(base: UrlView, found: Option<UrlView>) -> Result<UrlView, Seq<char>> {
    match found {
        None => Err("文件地址无效"@),
        Some(u) => if is_secure(u) && is_same_origin(u, base) {
            Ok(u)
        } else {
            Err("拒绝访问跨源或不安全的文件地址"@)
        },
    }
}

pub fn accept_file_url(base: &UrlParts, found: Option<UrlParts>) -> (r: Result<UrlParts, String>)
    ensures
        url_outcome(r) == file_url_of(base@, opt_url(found)),
{
    match found {
        None => Err("文件地址无效".to_owned()),
        Some(u) => if secure_or_loopback(&u) && same_origin(&u, base) {
            Ok(u)
        } else {
            Err("拒绝访问跨源或不安全的文件地址".to_owned())
        },
    }
}

pub fn checked_same_origin(base: &UrlParts, raw: &str) -> (r: Result<UrlParts, String>)
    ensures
        url_outcome(r) == file_url_of(base@, url_joined(base@.text, raw@)),
{
    accept_file_url(base, join_url(base.text.as_str(), raw))
}

/// The media type of a file, by the extension of its name.
pub open spec fn media_type_of(path: Seq<char>) -> Option<Seq<char>> {
    let extension = match extension_of(path) {
        Some(e) => ascii_lowercase(e),
        None => ""@,
    };
    if extension == "png"@ {
        Some("image/png"@)
    } else if extension == "jpg"@ || extension == "jpeg"@ {
        Some("image/jpeg"@)
    } else if extension == "webp"@ {
        Some("image/webp"@)
    } else if extension == "gif"@ {
        Some("image/gif"@)
    } else if extension == "mp4"@ || extension == "m4v"@ {
        Some("video/mp4"@)
    } else if extension == "mov"@ {
        Some("video/quicktime"@)
    } else if extension == "webm"@ {
        Some("video/webm"@)
    } else if extension == "mp3"@ {
        Some("audio/mpeg"@)
    } else if extension == "wav"@ {
        Some("audio/wav"@)
    } else if extension == "m4a"@ {
        Some("audio/mp4"@)
    } else {
        None
    }
}

pub fn media_type(path: &str) -> (r: Result<&'static str, String>)
    ensures
        match media_type_of(path@) {
            Some(t) => r matches Ok(s) && s@ == t,
            None => r matches Err(e) && e@ == "不支持该文件类型"@,
        },
{
    let found: String = match extension(path) {
        Some(e) => to_ascii_lowercase(e.as_str()),
        None => "".to_owned(),
    };
    let e: &str = found.as_str();
    if same(e, "png") {
        Ok("image/png")
    } else if same(e, "jpg") || same(e, "jpeg") {
        Ok("image/jpeg")
    } else if same(e, "webp") {
        Ok("image/webp")
    } else if same(e, "gif") {
        Ok("image/gif")
    } else if same(e, "mp4") || same(e, "m4v") {
        Ok("video/mp4")
    } else if same(e, "mov") {
        Ok("video/quicktime")
    } else if same(e, "webm") {
        Ok("video/webm")
    } else if same(e, "mp3") {
        Ok("audio/mpeg")
    } else if same(e, "wav") {
        Ok("audio/wav")
    } else if same(e, "m4a") {
        Ok("audio/mp4")
    } else {
        Err("不支持该文件类型".to_owned())
    }
}

/// The request for an upload slot.
pub struct UploadRequest {
    /// The address that the request is posted to.
    pub url: String,
    pub body: Json,
    pub content_type: String,
}

/// The body of the request for an upload slot.
pub open spec fn upload_body(
    purpose: Seq<char>,
    team: Option<Seq<char>>,
    filename: Seq<char>,
    content_type: Seq<char>,
    size: u64,
) -> JsonModel {
    JsonModel::Object(
        seq![
            ("purpose"@, JsonModel::Text(purpose)),
            (
                "team_id"@,
                match team {
                    Some(t) => JsonModel::Text(t),
                    None => JsonModel::Null,
                },
            ),
            ("filename"@, JsonModel::Text(filename)),
            ("content_type"@, JsonModel::Text(content_type)),
            ("size_bytes"@, int_model(size as int)),
        ],
    )
}

/// Why a file is not uploaded; checked in this order.
pub open spec fn upload_fault(path: Seq<char>, is_file: bool, size: u64) -> Option<Seq<char>> {
    if !is_file || size == 0 {
        Some("上传文件为空或不是普通文件"@)
    } else if file_name_of(path) is None {
        Some("上传文件名无效"@)
    } else if media_type_of(path) is None {
        Some("不支持该文件类型"@)
    } else {
        None
    }
}

/// The request for an upload slot, once the address of the interface is known.
pub open spec fn upload_request_of(
    path: Seq<char>,
    is_file: bool,
    size: u64,
    purpose: Seq<char>,
    team: Option<Seq<char>>,
    interface: Option<UrlView>,
) -> Result<(Seq<char>, JsonModel, Seq<char>), Seq<char>> {
    if upload_fault(path, is_file, size) is Some {
        Err(upload_fault(path, is_file, size)->0)
    } else {
        match interface {
            None => Err("上传接口地址无效"@),
            Some(u) => Ok(
                (
                    u.text,
                    upload_body(
                        purpose,
                        team,
                        file_name_of(path)->0,
                        media_type_of(path)->0,
                        size,
                    ),
                    media_type_of(path)->0,
                ),
            ),
        }
    }
}

/// The view of a request for an upload slot.
pub open spec fn upload_view(r: Result<UploadRequest, String>) -> Result<
    (Seq<char>, JsonModel, Seq<char>),
    Seq<char>,
> {
    match r {
        Ok(u) => Ok((u.url@, u.body@, u.content_type@)),
        Err(e) => Err(e@),
    }
}

/// Makes the request for an upload slot, given the address of the interface.
pub fn request_upload(
    path: &str,
    is_file: bool,
    size: u64,
    purpose: &str,
    team: Option<&str>,
    interface: Option<UrlParts>,
) -> (r: Result<UploadRequest, String>)
    ensures
        upload_view(r) == upload_request_of(
            path@,
            is_file,
            size,
            purpose@,
            match team {
                Some(t) => Some(t@),
                None => None,
            },
            opt_url(interface),
        ),
{
    if !is_file || size == 0 {
        return Err("上传文件为空或不是普通文件".to_owned());
    }
    let filename: String = match file_name(path) {
        Some(name) => name,
        None => return Err("上传文件名无效".to_owned()),
    };
    let content_type: &'static str = match media_type(path) {
        Ok(t) => t,
        Err(e) => return Err(e),
    };
    let url: String = match interface {
        Some(u) => u.text,
        None => return Err("上传接口地址无效".to_owned()),
    };
    let mut fields: Vec<(String, Json)> = Vec::new();
    fields.push(("purpose".to_owned(), Json::from_text(purpose)));
    fields.push(
        (
            "team_id".to_owned(),
            match team {
                Some(t) => Json::from_text(t),
                None => Json::Null,
            },
        ),
    );
    fields.push(("filename".to_owned(), Json::from_text(filename.as_str())));
    fields.push(("content_type".to_owned(), Json::from_text(content_type)));
    fields.push(("size_bytes".to_owned(), Json::from_u64(size)));
    let body: Json = Json::from_members(fields);
    proof {
        assert(body@->Object_0 =~= upload_body(
            purpose@,
            match team {
                Some(t) => Some(t@),
                None => None,
            },
            filename@,
            content_type@,
            size,
        )->Object_0);
    }
    Ok(UploadRequest { url, body, content_type: content_type.to_owned() })
}

/// Makes the request for an upload slot at the service's address.
pub fn prepare_upload(
    base: &UrlParts,
    path: &str,
    is_file: bool,
    size: u64,
    purpose: &str,
    team: Option<&str>,
) -> (r: Result<UploadRequest, String>)
    ensures
        upload_view(r) == upload_request_of(
            path@,
            is_file,
            size,
            purpose@,
            match team {
                Some(t) => Some(t@),
                None => None,
            },
            url_joined(base@.text, "api/uploads"@),
        ),
{
    let interface: Option<UrlParts> = join_url(base.text.as_str(), "api/uploads");
    request_upload(path, is_file, size, purpose, team, interface)
}

/// A header that the service may not ask the client to send.
pub open spec fn is_forbidden_header(name: Seq<char>) -> bool {
    let lower = ascii_lowercase(name);
    ||| lower == "authorization"@
    ||| lower == "host"@
    ||| lower == "content-length"@
    ||| lower == "cookie"@
    ||| lower == "proxy-authorization"@
}

fn forbidden_header(name: &str) -> (r: bool)
    ensures
        r == is_forbidden_header(name@),
{
    let lower: String = to_ascii_lowercase(name);
    same(lower.as_str(), "authorization") || same(lower.as_str(), "host") || same(
        lower.as_str(),
        "content-length",
    ) || same(lower.as_str(), "cookie") || same(lower.as_str(), "proxy-authorization")
}

/// The first of the required headers, from `i` on, that cannot be sent.
pub open spec fn header_fault(entries: Seq<(Seq<char>, JsonModel)>, i: int) -> Option<Seq<char>>
    decreases entries.len() - i,
{
    if i < 0 || i >= entries.len() {
        None
    } else if is_forbidden_header(entries[i].0) {
        Some("服务器返回了不允许的上传请求头"@)
    } else if entries[i].1.as_text() is None {
        Some("服务器返回了无效的上传请求头"@)
    } else {
        header_fault(entries, i + 1)
    }
}

/// The headers of the upload: the required ones, otherwise the media type.
pub open spec fn headers_of(info: JsonModel, content_type: Seq<char>) -> Result<
    Seq<(Seq<char>, Seq<char>)>,
    Seq<char>,
> {
    match info.at("required_headers"@) {
        JsonModel::Object(entries) => match header_fault(entries, 0) {
            Some(message) => Err(message),
            None => Ok(
                Seq::new(
                    entries.len(),
                    |i: int| (entries[i].0, entries[i].1.as_text()->0),
                ),
            ),
        },
        _ => Ok(seq![("Content-Type"@, content_type)]),
    }
}

/// The views of a list of headers.
pub open spec fn header_views(v: Seq<(String, String)>) -> Seq<(Seq<char>, Seq<char>)> {
    Seq::new(v.len(), |i: int| (v[i].0@, v[i].1@))
}

/// The headers that the upload is sent with.
pub fn upload_headers(info: &Json, content_type: &str) -> (r: Result<Vec<(String, String)>, String>)
    ensures
        match headers_of(info@, content_type@) {
            Ok(headers) => r matches Ok(v) && header_views(v@) == headers,
            Err(message) => r matches Err(e) && e@ == message,
        },
{
    let required: Json = info.at("required_headers");
    match &required {
        Json::Object(fields) => {
            let ghost entries = members(fields@);
            proof {
                assert(required@->Object_0 =~= entries);
            }
            let mut out: Vec<(String, String)> = Vec::new();
            let mut i: usize = 0;
            while i < fields.len()
                invariant
                    i <= fields.len(),
                    entries == members(fields@),
                    info@.at("required_headers"@) == JsonModel::Object(entries),
                    header_fault(entries, 0) == header_fault(entries, i as int),
                    out@.len() == i,
                    forall|j: int|
                        0 <= j < i ==> (#[trigger] out@[j]).0@ == entries[j].0 && out@[j].1@
                            == entries[j].1.as_text()->0,
                decreases fields.len() - i,
            {
                proof {
                    assert(entries[i as int] == (fields@[i as int].0@, fields@[i as int].1@));
                }
                if forbidden_header(fields[i].0.as_str()) {
                    return Err("服务器返回了不允许的上传请求头".to_owned());
                }
                match fields[i].1.as_text() {
                    Some(value) => {
                        let name: String = fields[i].0.clone();
                        out.push((name, value));
                    },
                    None => return Err("服务器返回了无效的上传请求头".to_owned()),
                }
                i = i + 1;
            }
            proof {
                assert(header_views(out@) =~= headers_of(info@, content_type@)->Ok_0);
            }
            Ok(out)
        },
        _ => {
            let mut out: Vec<(String, String)> = Vec::new();
            out.push(("Content-Type".to_owned(), content_type.to_owned()));
            proof {
                assert(header_views(out@) =~= seq![("Content-Type"@, content_type@)]);
            }
            Ok(out)
        },
    }
}

/// The address in the answer to a request for an upload slot.
pub open spec fn slot_of(info: JsonModel) -> Result<Seq<char>, Seq<char>> {
    if info.at("method"@).as_text() != Some("PUT"@) {
        Err("服务器返回了不支持的上传方式"@)
    } else {
        match info.at("upload_url"@).as_text() {
            Some(url) => Ok(url),
            None => Err("服务器未返回上传地址"@),
        }
    }
}

pub fn upload_slot(info: &Json) -> (r: Result<String, String>)
    ensures
        outcome(r) == slot_of(info@),
{
    let method: Option<String> = info.at("method").as_text();
    let put: bool = match &method {
        Some(m) => same(m.as_str(), "PUT"),
        None => false,
    };
    if !put {
        return Err("服务器返回了不支持的上传方式".to_owned());
    }
    match info.at("upload_url").as_text() {
        Some(url) => Ok(url),
        None => Err("服务器未返回上传地址".to_owned()),
    }
}

/// Where a file is sent, and with which headers beside its length.
pub struct Slot {
    pub url: String,
    pub headers: Vec<(String, String)>,
}

/// The view of an upload slot or an error message.
pub open spec fn slot_view(r: Result<Slot, String>) -> Result<
    (Seq<char>, Seq<(Seq<char>, Seq<char>)>),
    Seq<char>,
> {
    match r {
        Ok(slot) => Ok((slot.url@, header_views(slot.headers@))),
        Err(e) => Err(e@),
    }
}

/// The slot in the answer to a request for one: its address is one of the
/// service, and its headers are ones that may be sent. `found` is what joining
/// the address to the service's gave.
pub open spec fn opened_slot(
    base: UrlView,
    info: JsonModel,
    found: Option<UrlView>,
    content_type: Seq<char>,
) -> Result<(Seq<char>, Seq<(Seq<char>, Seq<char>)>), Seq<char>> {
    match slot_of(info) {
        Err(message) => Err(message),
        Ok(_) => match file_url_of(base, found) {
            Err(message) => Err(message),
            Ok(url) => match headers_of(info, content_type) {
                Err(message) => Err(message),
                Ok(headers) => Ok((url.text, headers)),
            },
        },
    }
}

/// The slot that a file is sent to.
pub fn open_slot(base: &UrlParts, info: &Json, content_type: &str) -> (r: Result<Slot, String>)
    ensures
        slot_view(r) == opened_slot(
            base@,
            info@,
            url_joined(base@.text, slot_of(info@)->Ok_0),
            content_type@,
        ),
{
    let raw: String = match upload_slot(info) {
        Ok(raw) => raw,
        Err(e) => return Err(e),
    };
    let url: UrlParts = match checked_same_origin(base, raw.as_str()) {
        Ok(url) => url,
        Err(e) => return Err(e),
    };
    match upload_headers(info, content_type) {
        Ok(headers) => Ok(Slot { url: url.text, headers }),
        Err(e) => Err(e),
    }
}

/// The address that a file is downloaded from, if the service's address can be
/// used and the file is one of the service.
pub open spec fn located_file(base: Seq<char>, raw: Seq<char>) -> Result<UrlView, Seq<char>> {
    match base_of(url_parsed(trimmed(base))) {
        Err(message) => Err(message),
        Ok(service) => file_url_of(service, url_joined(service.text, raw)),
    }
}

pub fn locate_file(base: &str, raw: &str) -> (r: Result<UrlParts, String>)
    ensures
        url_outcome(r) == located_file(base@, raw@),
{
    match checked_base(base) {
        Ok(service) => checked_same_origin(&service, raw),
        Err(e) => Err(e),
    }
}

/// The name of the file that a download is written to before it is complete.
pub open spec fn partial_name_of(target: Seq<char>, id: Seq<char>) -> Seq<char> {
    let name = match file_name_of(target) {
        Some(n) => n,
        None => "download"@,
    };
    "."@ + name + "."@ + id + ".part"@
}

pub fn partial_name(target: &str, id: &str) -> (r: String)
    ensures
        r@ == partial_name_of(target@, id@),
{
    let name: String = match file_name(target) {
        Some(n) => n,
        None => "download".to_owned(),
    };
    let mut out: String = cat3(".", name.as_str(), ".");
    out.append(id);
    out.append(".part");
    out
}

/// A name of its own for each download.
pub fn fresh_partial_name(target: &str) -> (r: String)
    ensures
        exists|id: Seq<char>| #[trigger] is_uuid(id) && r@ == partial_name_of(target@, id),
{
    let id: String = fresh_id();
    partial_name(target, id.as_str())
}

/// Whether a download of an announced length is begun.
pub open spec fn announced_fault(expected: Option<u64>) -> Option<Seq<char>> {
    if expected is Some && expected->0 > MAX_DOWNLOAD_BYTES {
        Some("下载文件超过 512 MB 上限"@)
    } else {
        None
    }
}

/// What is wrong with a download of `written` bytes.
pub open spec fn received_fault(expected: Option<u64>, written: u64) -> Option<Seq<char>> {
    if written > MAX_DOWNLOAD_BYTES {
        Some("下载文件超过 512 MB 上限"@)
    } else if written == 0 || (expected is Some && expected->0 != written) {
        Some("下载文件不完整，请重试"@)
    } else {
        None
    }
}

/// The verdict for a fault, where there is one.
pub open spec fn verdict_of(fault: Option<Seq<char>>) -> Result<(), Seq<char>> {
    match fault {
        Some(message) => Err(message),
        None => Ok(()),
    }
}

pub fn check_announced(expected: Option<u64>) -> (r: Result<(), String>)
    ensures
        verdict(r) == verdict_of(announced_fault(expected)),
{
    if let Some(length) = expected {
        if length > MAX_DOWNLOAD_BYTES {
            return Err("下载文件超过 512 MB 上限".to_owned());
        }
    }
    Ok(())
}

pub fn check_received(expected: Option<u64>, written: u64) -> (r: Result<(), String>)
    ensures
        verdict(r) == verdict_of(received_fault(expected, written)),
{
    if written > MAX_DOWNLOAD_BYTES {
        return Err("下载文件超过 512 MB 上限".to_owned());
    }
    let short: bool = match expected {
        Some(length) => length != written,
        None => false,
    };
    if written == 0 || short {
        return Err("下载文件不完整，请重试".to_owned());
    }
    Ok(())
}

/// What the user is told of a transfer that the service refused.
pub open spec fn refusal_of(status: u16, body: JsonModel) -> Seq<char> {
    match body.at("error"@).at("message"@).as_text() {
        Some(message) => message,
        None => "文件传输失败 ("@ + decimal(status as nat) + ")"@,
    }
}

pub fn api_error(status: u16, body: &Json) -> (r: String)
    ensures
        r@ == refusal_of(status, body@),
{
    match body.at("error").at("message").as_text() {
        Some(message) => message,
        None => {
            let digits: String = to_decimal(status as u64);
            cat3("文件传输失败 (", digits.as_str(), ")")
        },
    }
}

/// A download is kept only where it is complete: of the announced length, not
/// empty and within the limit.
pub proof fn kept_downloads_are_complete(expected: Option<u64>, written: u64)
    requires
        announced_fault(expected) is None,
        received_fault(expected, written) is None,
    ensures
        0 < written <= MAX_DOWNLOAD_BYTES,
        expected is Some ==> written == expected->0,
{
}

/// No file is fetched from, or sent to, another server than the service.
pub proof fn files_stay_with_the_service(base: UrlView, found: Option<UrlView>)
    ensures
        file_url_of(base, found) matches Ok(u) ==> u.scheme == base.scheme && u.host == base.host
            && u.port == base.port && u.username == base.username && is_secure(u),
{
}

} // verus!
