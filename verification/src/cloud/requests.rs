//! Requests to the service and the queue of jobs that sends them one at a
//! time.

use crate::json::{int_model, members, models, Json, JsonModel};
use crate::text::{
    cat, cat3, contains, contains_text, decimal, has_prefix, opt, outcome, parsed, prefix_rest,
    same, starts_with, strip_prefix, to_decimal, trim, trim_end_matches, trim_end_of, trimmed,
};
use crate::urls::{
    bare, is_bare, is_secure, opt_url, parse_url, secure_or_loopback, url_parsed, UrlParts, UrlView,
};
use vstd::prelude::*;
use vstd::string::*;

verus! {

/// The service that an ordinary launch talks to.
pub const DEFAULT_API_URL: &'static str = "https://seecut.stormycry.cloud";

/// A request to the service, or to a local worker where the path starts with
/// `local:`.
pub struct Request {
    pub method: String,
    pub path: String,
    pub body: Json,
    pub idem: Option<String>,
}

pub struct RequestView {
    pub method: Seq<char>,
    pub path: Seq<char>,
    pub body: JsonModel,
    pub idem: Option<Seq<char>>,
}

impl View for Request {
    type V = RequestView;

    open spec fn view(&self) -> RequestView {
        RequestView {
            method: self.method@,
            path: self.path@,
            body: self.body@,
            idem: opt(self.idem),
        }
    }
}

/// A request without an idempotency key.
pub open spec fn plain_request(
    method: Seq<char>,
    path: Seq<char>,
    body: JsonModel,
) -> RequestView {
    RequestView { method, path, body, idem: None }
}

pub fn request(method: &str, path: &str, body: Json) -> (r: Request)
    ensures
        r@ == plain_request(method@, path@, body@),
{
    Request { method: method.to_owned(), path: path.to_owned(), body, idem: None }
}

/// The list in an answer: under `items`, or under `data` where there are no
/// `items`.
pub open spec fn items_of(v: JsonModel) -> Seq<JsonModel> {
    if v.get("items"@) is Some {
        v.list("items"@)
    } else {
        v.list("data"@)
    }
}

pub fn items(v: &Json) -> (r: Vec<Json>)
    ensures
        models(r@) == items_of(v@),
{
    if v.get("items").is_some() {
        v.list("items")
    } else {
        v.list("data")
    }
}

/// The address of the service as the user gave it, from what parsing it gave.
pub open spec fn service_of(raw: Seq<char>, parsed: Option<UrlView>) -> Result<
    Seq<char>,
    Seq<char>,
> {
    match parsed {
        None => Err("服务地址格式无效"@),
        Some(u) => if !is_bare(u) {
            Err("服务地址格式无效"@)
        } else if !is_secure(u) {
            Err("服务地址必须使用 HTTPS"@)
        } else {
            Ok(trim_end_of(trimmed(raw), '/'))
        },
    }
}

pub fn accept_service(raw: &str, parsed: Option<UrlParts>) -> (r: Result<String, String>)
    ensures
        outcome(r) == service_of(raw@, opt_url(parsed)),
{
    match parsed {
        None => Err("服务地址格式无效".to_owned()),
        Some(u) => if !bare(&u) {
            Err("服务地址格式无效".to_owned())
        } else if !secure_or_loopback(&u) {
            Err("服务地址必须使用 HTTPS".to_owned())
        } else {
            let short: String = trim(raw);
            Ok(trim_end_matches(short.as_str(), '/'))
        },
    }
}

/// Checks the address of the service.
pub fn base_url(raw: &str) -> (r: Result<String, String>)
    ensures
        outcome(r) == service_of(raw@, url_parsed(trimmed(raw@))),
{
    let short: String = trim(raw);
    accept_service(raw, parse_url(short.as_str()))
}

/// The address of the service: the override where it is one, otherwise the
/// default.
pub fn configured_api_url(override_url: Option<&str>) -> (r: String)
    ensures
        r@ == match override_url {
            Some(raw) => match service_of(raw@, url_parsed(trimmed(raw@))) {
                Ok(url) => url,
                Err(_) => DEFAULT_API_URL@,
            },
            None => DEFAULT_API_URL@,
        },
{
    if let Some(raw) = override_url {
        if let Ok(url) = base_url(raw) {
            return url;
        }
    }
    DEFAULT_API_URL.to_owned()
}

/// Why a request failed. A failure before the service answered has the status
/// 0 and no code.
pub struct ClientError {
    pub status: u16,
    pub code: String,
    pub message: String,
    pub retry_after: i32,
}

pub struct ErrorView {
    pub status: u16,
    pub code: Seq<char>,
    pub message: Seq<char>,
    pub retry_after: i32,
}

impl View for ClientError {
    type V = ErrorView;

    open spec fn view(&self) -> ErrorView {
        ErrorView {
            status: self.status,
            code: self.code@,
            message: self.message@,
            retry_after: self.retry_after,
        }
    }
}

/// A failure that only has a message.
pub fn local_error(message: &str) -> (r: ClientError)
    ensures
        r@ == (ErrorView { status: 0, code: ""@, message: message@, retry_after: 0 }),
{
    ClientError { status: 0, code: "".to_owned(), message: message.to_owned(), retry_after: 0 }
}

/// The failure that an answer with an error status stands for.
pub open spec fn refusal(status: u16, body: JsonModel) -> ErrorView {
    let error = body.at("error"@);
    let seconds = match error.at("retry_after"@).as_i64() {
        Some(n) => n as int,
        None => 0,
    };
    ErrorView {
        status,
        code: error.text("code"@),
        message: if has_prefix(error.text("code"@), "GENERATION_ASSET_"@) {
            "参考素材已过期或不可用，请重新上传"@
        } else {
            match error.at("message"@).as_text() {
                Some(message) => message,
                None => "请求失败 ("@ + decimal(status as nat) + ")"@,
            }
        },
        retry_after: if seconds < 0 {
            0
        } else if seconds > 3600 {
            3600
        } else {
            seconds as i32
        },
    }
}

pub fn refused(status: u16, body: &Json) -> (r: ClientError)
    ensures
        r@ == refusal(status, body@),
{
    let error: Json = body.at("error");
    let code: String = error.text("code");
    let message: String = if starts_with(code.as_str(), "GENERATION_ASSET_") {
        "参考素材已过期或不可用，请重新上传".to_owned()
    } else {
        match error.at("message").as_text() {
            Some(message) => message,
            None => {
                let digits: String = to_decimal(status as u64);
                cat3("请求失败 (", digits.as_str(), ")")
            },
        }
    };
    let seconds: i64 = match error.at("retry_after").as_i64() {
        Some(n) => n,
        None => 0,
    };
    let retry_after: i32 = if seconds < 0 {
        0
    } else if seconds > 3600 {
        3600
    } else {
        seconds as i32
    };
    ClientError { status, code, message, retry_after }
}

/// Who serves a request.
#[derive(Clone, Copy, PartialEq, Eq, Structural)]
pub enum Route {
    ExportCopy,
    Library,
    Upload,
    Download,
    Service,
}

pub open spec fn route_of(path: Seq<char>) -> Route {
    if path == "local:export-copy"@ {
        Route::ExportCopy
    } else if has_prefix(path, "local:library-"@) {
        Route::Library
    } else if path == "local:upload"@ {
        Route::Upload
    } else if path == "local:download"@ {
        Route::Download
    } else {
        Route::Service
    }
}

pub fn route(path: &str) -> (r: Route)
    ensures
        r == route_of(path@),
{
    if same(path, "local:export-copy") {
        Route::ExportCopy
    } else if starts_with(path, "local:library-") {
        Route::Library
    } else if same(path, "local:upload") {
        Route::Upload
    } else if same(path, "local:download") {
        Route::Download
    } else {
        Route::Service
    }
}

/// A message to the service, as it goes over the wire.
pub struct Message {
    pub url: String,
    pub headers: Vec<(String, String)>,
    pub with_body: bool,
}

/// The headers of a message: the session, then the idempotency key.
pub open spec fn message_headers(token: Seq<char>, idem: Option<Seq<char>>) -> Seq<
    (Seq<char>, Seq<char>),
> {
    let session = if token.len() > 0 {
        seq![("Authorization"@, "Bearer "@ + token)]
    } else {
        Seq::empty()
    };
    match idem {
        Some(key) => session.push(("Idempotency-Key"@, key)),
        None => session,
    }
}

/// The message that carries a request to the service.
pub fn message(base: &str, token: &str, req: &Request) -> (r: Message)
    ensures
        r.url@ == base@ + req@.path,
        crate::cloud_files::header_views(r.headers@) == message_headers(token@, req@.idem),
        r.with_body == (req@.method != "GET"@ && req@.method != "DELETE"@),
{
    let url: String = cat(base, req.path.as_str());
    let mut headers: Vec<(String, String)> = Vec::new();
    if !token.is_empty() {
        headers.push(("Authorization".to_owned(), cat("Bearer ", token)));
    }
    proof {
        assert(crate::cloud_files::header_views(headers@) =~= message_headers(token@, None));
    }
    let ghost before = headers@;
    if let Some(key) = &req.idem {
        headers.push(("Idempotency-Key".to_owned(), key.clone()));
        proof {
            assert(crate::cloud_files::header_views(headers@)
                =~= crate::cloud_files::header_views(before).push(("Idempotency-Key"@, key@)));
        }
    }
    let with_body: bool = !same(req.method.as_str(), "GET") && !same(req.method.as_str(), "DELETE");
    Message { url, headers, with_body }
}

/// Whether a probed file is of the medium that its name says.
pub open spec fn is_probed_as(kind: Seq<char>, has_audio: bool, has_video: bool) -> bool {
    if kind == "audio"@ {
        has_audio
    } else {
        has_video
    }
}

pub fn probed_as(kind: &str, has_audio: bool, has_video: bool) -> (r: bool)
    ensures
        r == is_probed_as(kind@, has_audio, has_video),
{
    if same(kind, "audio") {
        has_audio
    } else {
        has_video
    }
}

/// Where an uploaded file is registered.
pub open spec fn upload_endpoint_of(purpose: Seq<char>, team: Seq<char>) -> Seq<char> {
    if purpose == "team_asset"@ {
        "/api/teams/"@ + team + "/assets"@
    } else {
        "/api/generation/assets"@
    }
}

/// The request that registers an uploaded file.
pub fn register_upload(purpose: &str, team: &str, info: &Json) -> (r: Request)
    ensures
        r@ == plain_request(
            "POST"@,
            upload_endpoint_of(purpose@, team@),
            JsonModel::Object(seq![("upload_id"@, info@.at("upload_id"@))]),
        ),
{
    let path: String = if same(purpose, "team_asset") {
        cat3("/api/teams/", team, "/assets")
    } else {
        "/api/generation/assets".to_owned()
    };
    let mut fields: Vec<(String, Json)> = Vec::new();
    fields.push(("upload_id".to_owned(), info.at("upload_id")));
    let body: Json = Json::from_members(fields);
    proof {
        assert(body@->Object_0 =~= seq![("upload_id"@, info@.at("upload_id"@))]);
    }
    request("POST", path.as_str(), body)
}

/// What a finished upload answers: the registration, with what the client
/// knows of the file.
pub open spec fn uploaded_of(
    registered: JsonModel,
    body: JsonModel,
    kind: Seq<char>,
    preview: JsonModel,
    duration_ms: Option<u64>,
) -> JsonModel {
    let named = registered.with("local_path"@, JsonModel::Text(body.text("path"@))).with(
        "client_id"@,
        body.at("client_id"@),
    ).with("status"@, JsonModel::Text("ready"@)).with("kind"@, JsonModel::Text(kind)).with(
        "preview_path"@,
        preview,
    );
    let timed = match duration_ms {
        Some(n) => named.with("media_duration_ms"@, int_model(n as int)),
        None => named,
    };
    timed.with("intent_team"@, JsonModel::Text(body.text("team"@)))
}

pub fn uploaded(
    registered: Json,
    body: &Json,
    kind: &str,
    preview: Json,
    duration_ms: Option<u64>,
) -> (r: Json)
    requires
        registered@.settable(),
    ensures
        r@ == uploaded_of(registered@, body@, kind@, preview@, duration_ms),
{
    let mut out: Json = registered.with("local_path", Json::Text(body.text("path")));
    out = out.with("client_id", body.at("client_id"));
    out = out.with("status", Json::from_text("ready"));
    out = out.with("kind", Json::from_text(kind));
    out = out.with("preview_path", preview);
    if let Some(n) = duration_ms {
        out = out.with("media_duration_ms", Json::from_u64(n));
    }
    out.with("intent_team", Json::Text(body.text("team")))
}

/// What a finished download answers.
pub open spec fn downloaded_of(body: JsonModel, path: Seq<char>) -> JsonModel {
    JsonModel::Object(
        seq![
            ("id"@, body.at("id"@)),
            ("path"@, JsonModel::Text(path)),
            ("intent"@, body.at("intent"@)),
            ("intent_team"@, body.at("intent_team"@)),
            ("preview_token"@, body.at("preview_token"@)),
        ],
    )
}

pub fn downloaded(body: &Json, path: &str) -> (r: Json)
    ensures
        r@ == downloaded_of(body@, path@),
{
    let mut fields: Vec<(String, Json)> = Vec::new();
    fields.push(("id".to_owned(), body.at("id")));
    fields.push(("path".to_owned(), Json::from_text(path)));
    fields.push(("intent".to_owned(), body.at("intent")));
    fields.push(("intent_team".to_owned(), body.at("intent_team")));
    fields.push(("preview_token".to_owned(), body.at("preview_token")));
    let r: Json = Json::from_members(fields);
    proof {
        assert(r@->Object_0 =~= downloaded_of(body@, path@)->Object_0);
    }
    r
}

/// A job of the account forms.
pub open spec fn auth_job(name: Seq<char>) -> bool {
    ||| name == "login"@
    ||| name == "register"@
    ||| name == "verify-email"@
    ||| name == "verification-resend"@
    ||| name == "password-reset-request"@
    ||| name == "password-reset-confirm"@
}

pub fn is_auth_job(name: &str) -> (r: bool)
    ensures
        r == auth_job(name@),
{
    same(name, "login") || same(name, "register") || same(name, "verify-email") || same(
        name,
        "verification-resend",
    ) || same(name, "password-reset-request") || same(name, "password-reset-confirm")
}

/// A job that refreshes what is shown and is no work of the user's.
pub open spec fn background_job(name: Seq<char>) -> bool {
    ||| has_prefix(name, "local-cache:"@)
    ||| name == "quote"@
    ||| name == "tasks"@
    ||| name == "wallet"@
    ||| name == "capabilities"@
    ||| name == "models"@
    ||| name == "teams"@
    ||| name == "assets"@
    ||| name == "members"@
    ||| name == "plans"@
    ||| name == "orders"@
    ||| name == "personal-cache"@
}

pub fn is_background_job(name: &str) -> (r: bool)
    ensures
        r == background_job(name@),
{
    starts_with(name, "local-cache:") || same(name, "quote") || same(name, "tasks") || same(
        name,
        "wallet",
    ) || same(name, "capabilities") || same(name, "models") || same(name, "teams") || same(
        name,
        "assets",
    ) || same(name, "members") || same(name, "plans") || same(name, "orders") || same(
        name,
        "personal-cache",
    )
}

/// An error that says that the session is gone.
pub open spec fn ends_session(error: ErrorView) -> bool {
    ||| error.status == 401
    ||| error.code == "SESSION_EXPIRED"@
    ||| error.code == "INVALID_SESSION"@
    ||| error.code == "INVALID_ACCESS_TOKEN"@
    ||| error.code == "AUTHENTICATION_REQUIRED"@
    ||| error.code == "AUTH_REQUIRED"@
    ||| error.code == "UNAUTHORIZED"@
}

pub fn session_expired(error: &ClientError) -> (r: bool)
    ensures
        r == ends_session(error@),
{
    let code: &str = error.code.as_str();
    error.status == 401 || same(code, "SESSION_EXPIRED") || same(code, "INVALID_SESSION") || same(
        code,
        "INVALID_ACCESS_TOKEN",
    ) || same(code, "AUTHENTICATION_REQUIRED") || same(code, "AUTH_REQUIRED") || same(
        code,
        "UNAUTHORIZED",
    )
}

/// Whether a request can only be made in a session.
pub open spec fn needs_session(path: Seq<char>) -> bool {
    &&& path != "local:export-copy"@
    &&& path != "/api/capabilities"@
    &&& !(has_prefix(path, "/api/auth/"@) && path != "/api/auth/logout"@)
    &&& !has_prefix(path, "local:library-"@)
}

pub fn request_requires_auth(req: &Request) -> (r: bool)
    ensures
        r == needs_session(req@.path),
{
    let path: &str = req.path.as_str();
    !same(path, "local:export-copy") && !same(path, "/api/capabilities") && !(starts_with(
        path,
        "/api/auth/",
    ) && !same(path, "/api/auth/logout")) && !starts_with(path, "local:library-")
}

pub fn can_start_request(signed_in: bool, req: &Request) -> (r: bool)
    ensures
        r == (signed_in || !needs_session(req@.path)),
{
    signed_in || !request_requires_auth(req)
}

/// Whether the error of a job is shown: a job of the account forms or of the
/// user's always is, a refresh only where nothing else is shown; an error of
/// a missing session stays out of sight while nobody is signed in.
pub open spec fn surfaces(
    signed_in: bool,
    auth_open: bool,
    current_error_empty: bool,
    name: Seq<char>,
    authentication_error: bool,
) -> bool {
    if !signed_in && !auth_job(name) && authentication_error {
        false
    } else {
        auth_job(name) || !background_job(name) || (!auth_open && current_error_empty)
    }
}

pub fn should_surface_job_error(
    signed_in: bool,
    auth_open: bool,
    current_error_empty: bool,
    name: &str,
    authentication_error: bool,
) -> (r: bool)
    ensures
        r == surfaces(signed_in, auth_open, current_error_empty, name@, authentication_error),
{
    if !signed_in && !is_auth_job(name) && authentication_error {
        return false;
    }
    is_auth_job(name) || !is_background_job(name) || (!auth_open && current_error_empty)
}

/// A message about the identity of the user.
pub open spec fn identity_error(message: Seq<char>) -> bool {
    message == "请先登录"@ || message == "登录状态已失效，请重新登录"@ || message == "请求失败 (401)"@
}

pub fn is_cloud_identity_error(message: &str) -> (r: bool)
    ensures
        r == identity_error(message@),
{
    same(message, "请先登录") || same(message, "登录状态已失效，请重新登录") || same(
        message,
        "请求失败 (401)",
    )
}

/// Whether a message about the identity goes when the page `target` is opened:
/// the home page and the personal library need no identity.
pub fn should_clear_identity_error_for_target(target: i32, message: &str) -> (r: bool)
    ensures
        r == ((target == 0 || target == 5) && identity_error(message@)),
{
    (target == 0 || target == 5) && is_cloud_identity_error(message)
}

/// The jobs: at most one runs, the others wait in their order.
pub struct JobQueue {
    pub busy: bool,
    /// The job that runs, empty where none does.
    pub active_name: String,
    pub pending: Vec<(String, Request)>,
    /// The number of the session that the jobs belong to.
    pub epoch: u64,
    pub auth_busy: bool,
    pub working: bool,
}

pub struct QueueView {
    pub busy: bool,
    pub active_name: Seq<char>,
    pub pending: Seq<(Seq<char>, RequestView)>,
    pub epoch: u64,
    pub auth_busy: bool,
    pub working: bool,
}

/// The view of an optional job.
pub open spec fn opt_job(job: Option<(String, Request)>) -> Option<(Seq<char>, RequestView)> {
    match job {
        Some(j) => Some((j.0@, j.1@)),
        None => None,
    }
}

/// The views of waiting jobs.
pub open spec fn job_views(v: Seq<(String, Request)>) -> Seq<(Seq<char>, RequestView)> {
    Seq::new(v.len(), |i: int| (v[i].0@, v[i].1@))
}

impl View for JobQueue {
    type V = QueueView;

    open spec fn view(&self) -> QueueView {
        QueueView {
            busy: self.busy,
            active_name: self.active_name@,
            pending: job_views(self.pending@),
            epoch: self.epoch,
            auth_busy: self.auth_busy,
            working: self.working,
        }
    }
}

/// A job of the user's: neither of the account forms nor a refresh.
pub open spec fn foreground_job(name: Seq<char>) -> bool {
    !auth_job(name) && !background_job(name)
}

/// The queue with its two lights set: whether an account job and whether a job
/// of the user's runs or waits.
pub open spec fn lit(queue: QueueView) -> QueueView {
    QueueView {
        auth_busy: (queue.active_name.len() > 0 && auth_job(queue.active_name)) || exists|i: int|
            0 <= i < queue.pending.len() && auth_job((#[trigger] queue.pending[i]).0),
        working: (queue.active_name.len() > 0 && foreground_job(queue.active_name)) || exists|
            i: int,
        |
            0 <= i < queue.pending.len() && foreground_job((#[trigger] queue.pending[i]).0),
        ..queue
    }
}

/// Sets the two lights of the queue.
pub fn sync_operation_state(queue: &mut JobQueue)
    ensures
        final(queue)@ == lit(old(queue)@),
{
    let ghost before = queue@;
    let running: bool = !queue.active_name.as_str().is_empty();
    let mut auth: bool = running && is_auth_job(queue.active_name.as_str());
    let mut working: bool = running && !is_auth_job(queue.active_name.as_str())
        && !is_background_job(queue.active_name.as_str());
    let mut i: usize = 0;
    while i < queue.pending.len()
        invariant
            i <= queue.pending.len(),
            before == queue@,
            auth == ((before.active_name.len() > 0 && auth_job(before.active_name)) || exists|
                j: int,
            |
                0 <= j < i && auth_job((#[trigger] before.pending[j]).0)),
            working == ((before.active_name.len() > 0 && foreground_job(before.active_name))
                || exists|j: int|
                0 <= j < i && foreground_job((#[trigger] before.pending[j]).0)),
        decreases queue.pending.len() - i,
    {
        proof {
            assert(before.pending[i as int].0 == queue.pending@[i as int].0@);
        }
        let name: &str = queue.pending[i].0.as_str();
        auth = auth || is_auth_job(name);
        working = working || (!is_auth_job(name) && !is_background_job(name));
        i = i + 1;
    }
    queue.auth_busy = auth;
    queue.working = working;
}

/// Whether a waiting job of this name is replaced by a newer one.
pub open spec fn replaces_waiting(name: Seq<char>) -> bool {
    name == "quote"@ || name == "tasks"@ || name == "wallet"@
}

/// A waiting job of another name.
pub open spec fn named_otherwise(name: Seq<char>) -> spec_fn((Seq<char>, RequestView)) -> bool {
    |job: (Seq<char>, RequestView)| job.0 != name
}

/// Takes the waiting jobs of a name out of the queue.
pub fn forget_waiting(queue: &mut JobQueue, name: &str)
    ensures
        final(queue)@ == (QueueView {
            pending: crate::lists::kept(old(queue)@.pending, named_otherwise(name@)),
            ..old(queue)@
        }),
{
    let ghost before = queue@;
    let ghost all = job_views(queue.pending@);
    let ghost p = named_otherwise(name@);
    let mut rest: Vec<(String, Request)> = Vec::new();
    let mut waiting: Vec<(String, Request)> = Vec::new();
    std::mem::swap(&mut waiting, &mut queue.pending);
    let ghost whole = waiting@;
    proof {
        crate::lists::kept_all(all, p);
        assert(job_views(rest@) =~= Seq::empty());
        assert(whole.skip(0) =~= whole);
    }
    let ghost mut done: int = 0;
    while waiting.len() > 0
        invariant
            0 <= done <= whole.len(),
            waiting@ == whole.skip(done),
            all == job_views(whole),
            p == named_otherwise(name@),
            job_views(rest@) == crate::lists::kept(all.take(done), p),
        decreases waiting.len(),
    {
        let ghost kept_before = rest@;
        let job: (String, Request) = waiting.remove(0);
        proof {
            crate::lists::kept_step(all, p, done);
            assert(whole.skip(done)[0] == whole[done]);
            assert(all[done] == (job.0@, job.1@));
            assert(waiting@ =~= whole.skip(done + 1));
        }
        if !same(job.0.as_str(), name) {
            rest.push(job);
            proof {
                assert(job_views(rest@) =~= job_views(kept_before).push(all[done]));
            }
        }
        proof {
            done = done + 1;
        }
    }
    proof {
        crate::lists::kept_all(all, p);
        assert(done == whole.len());
    }
    queue.pending = rest;
}

/// What becomes of a job that is to be started.
pub enum JobStart {
    /// Nothing: nobody is signed in, and the job is one that can be left out.
    Dropped,
    /// The user is asked to sign in.
    SignIn,
    /// The job waits.
    Waiting,
    /// The job runs; the document is what a quote answers for.
    Running(Request, Json),
}

pub enum JobStartView {
    Dropped,
    SignIn,
    Waiting,
    Running(RequestView, JsonModel),
}

impl View for JobStart {
    type V = JobStartView;

    open spec fn view(&self) -> JobStartView {
        match *self {
            JobStart::Dropped => JobStartView::Dropped,
            JobStart::SignIn => JobStartView::SignIn,
            JobStart::Waiting => JobStartView::Waiting,
            JobStart::Running(req, body) => JobStartView::Running(req@, body@),
        }
    }
}

/// The members of an object but for those named `key`.
pub open spec fn without(j: JsonModel, key: Seq<char>) -> JsonModel {
    match j {
        JsonModel::Object(entries) => JsonModel::Object(
            crate::lists::kept(entries, member_otherwise(key)),
        ),
        _ => j,
    }
}

/// A member of another name.
pub open spec fn member_otherwise(key: Seq<char>) -> spec_fn((Seq<char>, JsonModel)) -> bool {
    |m: (Seq<char>, JsonModel)| m.0 != key
}

fn drop_member(j: &Json, key: &str) -> (r: Json)
    ensures
        r@ == without(j@, key@),
{
    match j {
        Json::Object(fields) => {
            let ghost all = members(fields@);
            let ghost p = member_otherwise(key@);
            let mut out: Vec<(String, Json)> = Vec::new();
            let mut i: usize = 0;
            proof {
                assert(j@->Object_0 =~= all);
                crate::lists::kept_all(all, p);
                assert(members(out@) =~= Seq::empty());
            }
            while i < fields.len()
                invariant
                    i <= fields.len(),
                    all == members(fields@),
                    p == member_otherwise(key@),
                    members(out@) == crate::lists::kept(all.take(i as int), p),
                decreases fields.len() - i,
            {
                proof {
                    crate::lists::kept_step(all, p, i as int);
                }
                if !same(fields[i].0.as_str(), key) {
                    let ghost before = out@;
                    let name: String = fields[i].0.clone();
                    out.push((name, fields[i].1.copy()));
                    proof {
                        assert(members(out@) =~= members(before).push(all[i as int]));
                    }
                }
                i = i + 1;
            }
            proof {
                crate::lists::kept_all(all, p);
            }
            Json::from_members(out)
        },
        _ => j.copy(),
    }
}

/// The body that the answer to a job is for: a quote answers for its request
/// without the kind.
pub open spec fn answered_body(name: Seq<char>, body: JsonModel) -> JsonModel {
    if name == "quote"@ {
        without(body, "kind"@)
    } else {
        body
    }
}

/// What becomes of a job, the queue after it, and whether the shown error
/// goes.
pub open spec fn job_started(
    queue: QueueView,
    signed_in: bool,
    name: Seq<char>,
    req: RequestView,
) -> (JobStartView, QueueView, bool) {
    if !signed_in && needs_session(req.path) {
        if !background_job(name) && name != "logout"@ {
            (JobStartView::SignIn, queue, false)
        } else {
            (JobStartView::Dropped, queue, false)
        }
    } else if queue.busy {
        let waiting = if replaces_waiting(name) {
            crate::lists::kept(queue.pending, named_otherwise(name))
        } else {
            queue.pending
        };
        (
            JobStartView::Waiting,
            lit(QueueView { pending: waiting.push((name, req)), ..queue }),
            false,
        )
    } else {
        (
            JobStartView::Running(req, answered_body(name, req.body)),
            lit(QueueView { busy: true, active_name: name, ..queue }),
            !background_job(name),
        )
    }
}

/// Starts a job, or lets it wait. The second result says whether the error
/// that is shown goes.
pub fn job(queue: &mut JobQueue, signed_in: bool, name: &str, req: Request) -> (r: (JobStart, bool))
    ensures
        (r.0@, final(queue)@, r.1) == job_started(old(queue)@, signed_in, name@, req@),
{
    if !can_start_request(signed_in, &req) {
        if !is_background_job(name) && !same(name, "logout") {
            return (JobStart::SignIn, false);
        }
        return (JobStart::Dropped, false);
    }
    if queue.busy {
        if same(name, "quote") || same(name, "tasks") || same(name, "wallet") {
            forget_waiting(queue, name);
        }
        let ghost before = queue.pending@;
        let ghost view = req@;
        queue.pending.push((name.to_owned(), req));
        proof {
            assert(job_views(queue.pending@) =~= job_views(before).push((name@, view)));
        }
        sync_operation_state(queue);
        return (JobStart::Waiting, false);
    }
    let body: Json = if same(name, "quote") {
        drop_member(&req.body, "kind")
    } else {
        req.body.copy()
    };
    queue.active_name = name.to_owned();
    queue.busy = true;
    sync_operation_state(queue);
    let clears: bool = !is_background_job(name);
    (JobStart::Running(req, body), clears)
}

/// What the answer to a request is handed on as: a quote with the body it is
/// for, a list of team files with the request it answers.
pub open spec fn labelled(path: Seq<char>, value: JsonModel, body: JsonModel) -> JsonModel {
    let quoted = if path == "/api/generation/quote"@ {
        value.with("client_request_body"@, body)
    } else {
        value
    };
    if has_prefix(path, "/api/teams/"@) && contains_text(path, "/assets?trash="@) {
        JsonModel::Object(
            seq![
                ("items"@, JsonModel::Array(items_of(quoted))),
                ("client_assets_context"@, JsonModel::Text(path)),
            ],
        )
    } else {
        quoted
    }
}

pub fn label_answer(path: &str, value: Json, body: &Json) -> (r: Json)
    requires
        path@ == "/api/generation/quote"@ ==> value@.settable(),
    ensures
        r@ == labelled(path@, value@, body@),
{
    let quoted: Json = if same(path, "/api/generation/quote") {
        value.with("client_request_body", body.copy())
    } else {
        value
    };
    if starts_with(path, "/api/teams/") && contains(path, "/assets?trash=") {
        let mut fields: Vec<(String, Json)> = Vec::new();
        fields.push(("items".to_owned(), Json::from_list(items(&quoted))));
        fields.push(("client_assets_context".to_owned(), Json::from_text(path)));
        let r: Json = Json::from_members(fields);
        proof {
            assert(r@->Object_0 =~= seq![
                ("items"@, JsonModel::Array(items_of(quoted@))),
                ("client_assets_context"@, JsonModel::Text(path@)),
            ]);
        }
        r
    } else {
        quoted
    }
}

/// Takes note of an answer: the result is false where the answer belongs to
/// another session and is left alone; otherwise no job runs any more.
pub fn job_answered(queue: &mut JobQueue, epoch: u64) -> (r: bool)
    ensures
        r == (old(queue).epoch == epoch),
        final(queue)@ == if r {
            QueueView { busy: false, active_name: ""@, ..old(queue)@ }
        } else {
            old(queue)@
        },
{
    if queue.epoch != epoch {
        return false;
    }
    queue.busy = false;
    queue.active_name = "".to_owned();
    true
}

/// The job that is next, if one waits, and the queue once it is taken out.
pub open spec fn next_taken(queue: QueueView) -> (Option<(Seq<char>, RequestView)>, QueueView) {
    if queue.pending.len() > 0 {
        (
            Some(queue.pending[0]),
            QueueView { pending: queue.pending.drop_first(), ..queue },
        )
    } else {
        (None, lit(queue))
    }
}

/// Takes the next waiting job out of the queue, or sets the lights where none
/// waits.
pub fn next_job(queue: &mut JobQueue) -> (r: Option<(String, Request)>)
    ensures
        (
            match r {
                Some(job) => Some((job.0@, job.1@)),
                None => None,
            },
            final(queue)@,
        ) == next_taken(old(queue)@),
        match r {
            Some(job) => old(queue)@.pending.len() > 0 && (job.0@, job.1@)
                == old(queue)@.pending[0] && final(queue)@ == (QueueView {
                pending: old(queue)@.pending.drop_first(),
                ..old(queue)@
            }),
            None => old(queue)@.pending.len() == 0 && final(queue)@ == lit(old(queue)@),
        },
{
    let ghost before = job_views(queue.pending@);
    if queue.pending.len() > 0 {
        let job: (String, Request) = queue.pending.remove(0);
        proof {
            assert(job_views(queue.pending@) =~= before.drop_first());
        }
        Some(job)
    } else {
        sync_operation_state(queue);
        None
    }
}

/// One thing to do after a job has failed. The steps of a failure are taken in
/// their order.
pub enum FailureStep {
    /// The copy of exported files has stopped.
    ExportStopped(String),
    /// The open dialog of the personal library shows the error.
    DialogError(String),
    /// The session is cleared and the sign-in form opened; what the user meant
    /// to do is kept.
    SessionExpired,
    /// The session is cleared.
    LoggedOut,
    ClearPassword,
    SwitchAuth(i32),
    ResendSeconds(i32),
    /// Every ready reference counts as expired.
    ExpireReferences,
    /// The upload of a reference has failed.
    ReferenceFailed(String, String),
    ForgetTaskReference(String),
    ForgetDownload(String),
    PreviewFailed(String, u64, String),
    DropPickerBatch,
    RefreshQuote,
    ShowError(String),
    /// The error is shown where neither the sign-in form is open nor another
    /// error shown.
    ShowErrorIfQuiet(String),
}

pub enum FailureView {
    ExportStopped(Seq<char>),
    DialogError(Seq<char>),
    SessionExpired,
    LoggedOut,
    ClearPassword,
    SwitchAuth(i32),
    ResendSeconds(i32),
    ExpireReferences,
    ReferenceFailed(Seq<char>, Seq<char>),
    ForgetTaskReference(Seq<char>),
    ForgetDownload(Seq<char>),
    PreviewFailed(Seq<char>, u64, Seq<char>),
    DropPickerBatch,
    RefreshQuote,
    ShowError(Seq<char>),
    ShowErrorIfQuiet(Seq<char>),
}

impl View for FailureStep {
    type V = FailureView;

    open spec fn view(&self) -> FailureView {
        match *self {
            FailureStep::ExportStopped(m) => FailureView::ExportStopped(m@),
            FailureStep::DialogError(m) => FailureView::DialogError(m@),
            FailureStep::SessionExpired => FailureView::SessionExpired,
            FailureStep::LoggedOut => FailureView::LoggedOut,
            FailureStep::ClearPassword => FailureView::ClearPassword,
            FailureStep::SwitchAuth(mode) => FailureView::SwitchAuth(mode),
            FailureStep::ResendSeconds(n) => FailureView::ResendSeconds(n),
            FailureStep::ExpireReferences => FailureView::ExpireReferences,
            FailureStep::ReferenceFailed(id, m) => FailureView::ReferenceFailed(id@, m@),
            FailureStep::ForgetTaskReference(id) => FailureView::ForgetTaskReference(id@),
            FailureStep::ForgetDownload(id) => FailureView::ForgetDownload(id@),
            FailureStep::PreviewFailed(id, t, m) => FailureView::PreviewFailed(id@, t, m@),
            FailureStep::DropPickerBatch => FailureView::DropPickerBatch,
            FailureStep::RefreshQuote => FailureView::RefreshQuote,
            FailureStep::ShowError(m) => FailureView::ShowError(m@),
            FailureStep::ShowErrorIfQuiet(m) => FailureView::ShowErrorIfQuiet(m@),
        }
    }
}

/// The views of a list of steps.
pub open spec fn failure_views(v: Seq<FailureStep>) -> Seq<FailureView> {
    Seq::new(v.len(), |i: int| v[i]@)
}

/// The steps with one more where a condition holds.
pub open spec fn and_then_if(
    steps: Seq<FailureView>,
    condition: bool,
    step: FailureView,
) -> Seq<FailureView> {
    if condition {
        steps.push(step)
    } else {
        steps
    }
}

/// The file and the token that a preview job is named for: the name ends in a
/// colon and a number.
pub open spec fn preview_job(name: Seq<char>) -> Option<(Seq<char>, nat)> {
    match prefix_rest(name, "media-preview:"@) {
        None => None,
        Some(rest) => match crate::text::last_of(rest, ':') {
            None => None,
            Some(i) => match parsed(rest.subrange(i + 1, rest.len() as int), u64::MAX as nat) {
                None => None,
                Some(token) => Some((rest.subrange(0, i), token)),
            },
        },
    }
}

/// The steps that the failure of an account job or a generation calls for.
pub open spec fn account_failure(
    first: Seq<FailureView>,
    name: Seq<char>,
    error: ErrorView,
) -> Seq<FailureView> {
    let s1 = and_then_if(first, name == "login"@, FailureView::ClearPassword);
    let s2 = and_then_if(
        s1,
        name == "login"@ && error.code == "EMAIL_NOT_VERIFIED"@,
        FailureView::SwitchAuth(3),
    );
    let s3 = and_then_if(
        s2,
        name == "register"@ && error.code == "EMAIL_ALREADY_REGISTERED"@,
        FailureView::SwitchAuth(0),
    );
    let s4 = and_then_if(
        s3,
        name == "register"@ && error.code == "EMAIL_DELIVERY_UNAVAILABLE"@,
        FailureView::SwitchAuth(3),
    );
    let s5 = and_then_if(
        s4,
        (name == "verification-resend"@ || name == "password-reset-request"@) && error.retry_after
            > 0,
        FailureView::ResendSeconds(error.retry_after),
    );
    and_then_if(
        s5,
        (name == "quote"@ || name == "generate"@) && has_prefix(
            error.code,
            "GENERATION_ASSET_"@,
        ),
        FailureView::ExpireReferences,
    )
}

/// The steps after a failure that neither ends the session nor belongs to a
/// dialog.
pub open spec fn plain_failure(
    first: Seq<FailureView>,
    name: Seq<char>,
    error: ErrorView,
    signed_in: bool,
) -> Seq<FailureView> {
    let s6 = account_failure(first, name, error);
    let s7 = match prefix_rest(name, "reference:"@) {
        Some(id) => s6.push(FailureView::ReferenceFailed(id, error.message)),
        None => s6,
    };
    let s8 = match prefix_rest(name, "local-reference:"@) {
        Some(id) => s7.push(FailureView::ForgetTaskReference(id)),
        None => s7,
    };
    let s9 = match prefix_rest(name, "local-cache:"@) {
        Some(id) => s8.push(FailureView::ForgetDownload(id)),
        None => s8,
    };
    let s10 = match preview_job(name) {
        Some((id, token)) => s9.push(
            FailureView::PreviewFailed(id, token as u64, error.message),
        ),
        None => s9,
    };
    let s11 = and_then_if(s10, name == "picker-batch"@, FailureView::DropPickerBatch);
    let s12 = and_then_if(s11, name == "generate"@, FailureView::RefreshQuote);
    if !signed_in && !auth_job(name) && ends_session(error) {
        s12
    } else if auth_job(name) || !background_job(name) {
        s12.push(FailureView::ShowError(error.message))
    } else {
        s12.push(FailureView::ShowErrorIfQuiet(error.message))
    }
}

/// The steps after a job has failed, and whether the next waiting job is
/// started after them.
pub open spec fn failure_of(name: Seq<char>, error: ErrorView, signed_in: bool) -> (
    Seq<FailureView>,
    bool,
) {
    let first = and_then_if(
        Seq::empty(),
        name == "export-copy"@,
        FailureView::ExportStopped("导出中断："@ + error.message),
    );
    if has_prefix(name, "personal-dialog-"@) {
        (first.push(FailureView::DialogError(error.message)), true)
    } else if signed_in && name != "logout"@ && !auth_job(name) && ends_session(error) {
        (first.push(FailureView::SessionExpired), false)
    } else if name == "logout"@ {
        (first.push(FailureView::LoggedOut), false)
    } else {
        (plain_failure(first, name, error, signed_in), true)
    }
}

fn add_step(steps: &mut Vec<FailureStep>, step: FailureStep)
    ensures
        failure_views(final(steps)@) == failure_views(old(steps)@).push(step@),
{
    let ghost before = steps@;
    let ghost view = step@;
    steps.push(step);
    proof {
        assert(failure_views(steps@) =~= failure_views(before).push(view));
    }
}

/// Reads the name of a preview job.
pub fn read_preview_job(name: &str) -> (r: Option<(String, u64)>)
    ensures
        match preview_job(name@) {
            Some((id, token)) => r matches Some((i, t)) && i@ == id && t == token,
            None => r is None,
        },
{
    let rest: String = match strip_prefix(name, "media-preview:") {
        Some(rest) => rest,
        None => return None,
    };
    let v: Vec<char> = crate::text::chars_of(rest.as_str());
    proof {
        assert(v@.take(v@.len() as int) =~= v@);
    }
    let i: usize = match crate::text::find_last(&v, v.len(), ':') {
        Some(i) => i,
        None => return None,
    };
    match crate::text::read_number(&v, i + 1, v.len()) {
        Some(token) => Some((crate::text::text_of(&v, 0, i), token)),
        None => None,
    }
}

fn add_account_steps(steps: &mut Vec<FailureStep>, name: &str, error: &ClientError)
    ensures
        failure_views(final(steps)@) == account_failure(
            failure_views(old(steps)@),
            name@,
            error@,
        ),
{
    if same(name, "login") {
        add_step(steps, FailureStep::ClearPassword);
    }
    if same(name, "login") && same(error.code.as_str(), "EMAIL_NOT_VERIFIED") {
        add_step(steps, FailureStep::SwitchAuth(3));
    }
    if same(name, "register") && same(error.code.as_str(), "EMAIL_ALREADY_REGISTERED") {
        add_step(steps, FailureStep::SwitchAuth(0));
    }
    if same(name, "register") && same(error.code.as_str(), "EMAIL_DELIVERY_UNAVAILABLE") {
        add_step(steps, FailureStep::SwitchAuth(3));
    }
    if (same(name, "verification-resend") || same(name, "password-reset-request"))
        && error.retry_after > 0 {
        add_step(steps, FailureStep::ResendSeconds(error.retry_after));
    }
    if (same(name, "quote") || same(name, "generate")) && starts_with(
        error.code.as_str(),
        "GENERATION_ASSET_",
    ) {
        add_step(steps, FailureStep::ExpireReferences);
    }
}

fn add_plain_steps(
    steps: &mut Vec<FailureStep>,
    name: &str,
    error: &ClientError,
    signed_in: bool,
)
    ensures
        failure_views(final(steps)@) == plain_failure(
            failure_views(old(steps)@),
            name@,
            error@,
            signed_in,
        ),
{
    add_account_steps(steps, name, error);
    if let Some(id) = strip_prefix(name, "reference:") {
        add_step(steps, FailureStep::ReferenceFailed(id, error.message.clone()));
    }
    if let Some(id) = strip_prefix(name, "local-reference:") {
        add_step(steps, FailureStep::ForgetTaskReference(id));
    }
    if let Some(id) = strip_prefix(name, "local-cache:") {
        add_step(steps, FailureStep::ForgetDownload(id));
    }
    if let Some((id, token)) = read_preview_job(name) {
        add_step(steps, FailureStep::PreviewFailed(id, token, error.message.clone()));
    }
    if same(name, "picker-batch") {
        add_step(steps, FailureStep::DropPickerBatch);
    }
    if same(name, "generate") {
        add_step(steps, FailureStep::RefreshQuote);
    }
    if !signed_in && !is_auth_job(name) && session_expired(error) {
        return ;
    }
    if is_auth_job(name) || !is_background_job(name) {
        add_step(steps, FailureStep::ShowError(error.message.clone()));
    } else {
        add_step(steps, FailureStep::ShowErrorIfQuiet(error.message.clone()));
    }
}

/// What is to be done after a job has failed, and whether the next waiting job
/// is started after that.
pub fn job_failed(name: &str, error: &ClientError, signed_in: bool) -> (r: (Vec<FailureStep>, bool))
    ensures
        (failure_views(r.0@), r.1) == failure_of(name@, error@, signed_in),
{
    let mut steps: Vec<FailureStep> = Vec::new();
    proof {
        assert(failure_views(steps@) =~= Seq::empty());
    }
    if same(name, "export-copy") {
        add_step(
            &mut steps,
            FailureStep::ExportStopped(cat("导出中断：", error.message.as_str())),
        );
    }
    if starts_with(name, "personal-dialog-") {
        add_step(&mut steps, FailureStep::DialogError(error.message.clone()));
        return (steps, true);
    }
    if signed_in && !same(name, "logout") && !is_auth_job(name) && session_expired(error) {
        add_step(&mut steps, FailureStep::SessionExpired);
        return (steps, false);
    }
    if same(name, "logout") {
        add_step(&mut steps, FailureStep::LoggedOut);
        return (steps, false);
    }
    add_plain_steps(&mut steps, name, error, signed_in);
    (steps, true)
}

/// While nobody is signed in, no request that needs a session is ever sent or
/// left waiting.
pub proof fn signed_out_requests_are_not_sent(
    queue: QueueView,
    name: Seq<char>,
    req: RequestView,
)
    requires
        needs_session(req.path),
    ensures
        ({
            let (start, after, _) = job_started(queue, false, name, req);
            after == queue && (start is Dropped || start is SignIn)
        }),
{
}

/// At most one job of a refreshed kind waits: a newer quote, task list or
/// wallet takes the place of the one that waits.
pub proof fn refreshes_do_not_pile_up(
    queue: QueueView,
    signed_in: bool,
    name: Seq<char>,
    req: RequestView,
)
    requires
        replaces_waiting(name),
        queue.busy,
        signed_in || !needs_session(req.path),
    ensures
        ({
            let (_, after, _) = job_started(queue, signed_in, name, req);
            &&& after.pending.last() == (name, req)
            &&& forall|i: int|
                0 <= i < after.pending.len() - 1 ==> (#[trigger] after.pending[i]).0 != name
        }),
{
    let p = named_otherwise(name);
    let rest = crate::lists::kept(queue.pending, p);
    crate::lists::kept_satisfies(queue.pending, p);
    assert forall|i: int| 0 <= i < rest.len() implies (#[trigger] rest.push((name, req))[i]).0
        != name by {
        assert(p(rest[i]));
    }
}

} // verus!
