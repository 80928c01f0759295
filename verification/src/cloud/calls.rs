//! How a request is answered: what is done for it, one thing after the other.
//!
//! The service, the files and the media engine do their work outside. What was
//! done comes back as an event, and what is done next follows from it.

use crate::cloud::references::{kind_of_path, reference_kind};
use crate::cloud::requests::{
    downloaded, downloaded_of, is_probed_as, local_error, plain_request, probed_as,
    register_upload, request, route, route_of, upload_endpoint_of, uploaded, uploaded_of,
    ClientError, ErrorView, Request, RequestView, Route,
};
use crate::json::{replaced_lookup, Json, JsonModel};
use crate::text::opt;
use vstd::prelude::*;
use vstd::string::*;

verus! {

/// What the media engine reads of a file.
#[derive(Clone, Copy, PartialEq, Eq, Structural)]
pub struct Probe {
    pub has_audio: bool,
    pub has_video: bool,
    /// How long it plays, where that is known and not nothing.
    pub duration_ms: Option<u64>,
}

/// Where the answer to a request stands. The document is the body of the
/// request.
pub enum CallState {
    /// One reply is the answer.
    Direct,
    /// The file of an upload is read by the media engine.
    Probing(Json),
    /// A small picture of the file is made.
    Picturing(Json, Option<u64>),
    /// The file is sent; with it go how long it plays and its small picture.
    Sending(Json, Option<u64>, Json),
    /// The file that was sent is registered.
    Registering(Json, Option<u64>, Json),
    /// The address of a download is asked for.
    Locating(Json),
    /// The file of a download is fetched.
    Fetching(Json),
}

pub enum CallView {
    Direct,
    Probing(JsonModel),
    Picturing(JsonModel, Option<u64>),
    Sending(JsonModel, Option<u64>, JsonModel),
    Registering(JsonModel, Option<u64>, JsonModel),
    Locating(JsonModel),
    Fetching(JsonModel),
}

impl View for CallState {
    type V = CallView;

    open spec fn view(&self) -> CallView {
        match *self {
            CallState::Direct => CallView::Direct,
            CallState::Probing(body) => CallView::Probing(body@),
            CallState::Picturing(body, d) => CallView::Picturing(body@, d),
            CallState::Sending(body, d, p) => CallView::Sending(body@, d, p@),
            CallState::Registering(body, d, p) => CallView::Registering(body@, d, p@),
            CallState::Locating(body) => CallView::Locating(body@),
            CallState::Fetching(body) => CallView::Fetching(body@),
        }
    }
}

/// What was done.
pub enum CallEvent {
    /// The service, the library or the copier has replied.
    Replied(Result<Json, ClientError>),
    /// The media engine has read the file, or could not.
    Probed(Option<Probe>),
    /// A small picture was made; `Null` where none was.
    Pictured(Json),
    /// The file was sent, and the service has told where it is.
    Sent(Result<Json, String>),
    /// The file was fetched to a path.
    Fetched(Result<String, String>),
}

pub enum EventView {
    Replied(Result<JsonModel, ErrorView>),
    Probed(Option<Probe>),
    Pictured(JsonModel),
    Sent(Result<JsonModel, Seq<char>>),
    Fetched(Result<Seq<char>, Seq<char>>),
}

/// The view of a reply.
pub open spec fn reply_view(r: Result<Json, ClientError>) -> Result<JsonModel, ErrorView> {
    match r {
        Ok(value) => Ok(value@),
        Err(e) => Err(e@),
    }
}

impl View for CallEvent {
    type V = EventView;

    open spec fn view(&self) -> EventView {
        match *self {
            CallEvent::Replied(r) => EventView::Replied(reply_view(r)),
            CallEvent::Probed(p) => EventView::Probed(p),
            CallEvent::Pictured(p) => EventView::Pictured(p@),
            CallEvent::Sent(Ok(info)) => EventView::Sent(Ok(info@)),
            CallEvent::Sent(Err(e)) => EventView::Sent(Err(e@)),
            CallEvent::Fetched(Ok(path)) => EventView::Fetched(Ok(path@)),
            CallEvent::Fetched(Err(e)) => EventView::Fetched(Err(e@)),
        }
    }
}

/// What is done next.
pub enum CallAction {
    /// The request goes to the service.
    Ask(Request),
    /// The request is answered as one of its own.
    Call(Request),
    /// The files of the export are copied.
    CopyFiles,
    /// The personal library serves the request.
    Library(Request),
    /// The media engine reads a file.
    Probe(String),
    /// A small picture of a file of a medium is made.
    Picture(String, String),
    /// A file is sent for a purpose, and for a team where there is one.
    Send(String, String, Option<String>),
    /// A file is fetched from an address to a path.
    Fetch(String, String),
    /// The request is answered.
    Done(Result<Json, ClientError>),
}

pub enum ActView {
    Ask(RequestView),
    Call(RequestView),
    CopyFiles,
    Library(RequestView),
    Probe(Seq<char>),
    Picture(Seq<char>, Seq<char>),
    Send(Seq<char>, Seq<char>, Option<Seq<char>>),
    Fetch(Seq<char>, Seq<char>),
    Done(Result<JsonModel, ErrorView>),
}

impl View for CallAction {
    type V = ActView;

    open spec fn view(&self) -> ActView {
        match *self {
            CallAction::Ask(req) => ActView::Ask(req@),
            CallAction::Call(req) => ActView::Call(req@),
            CallAction::CopyFiles => ActView::CopyFiles,
            CallAction::Library(req) => ActView::Library(req@),
            CallAction::Probe(path) => ActView::Probe(path@),
            CallAction::Picture(path, kind) => ActView::Picture(path@, kind@),
            CallAction::Send(path, purpose, team) => ActView::Send(path@, purpose@, opt(team)),
            CallAction::Fetch(url, path) => ActView::Fetch(url@, path@),
            CallAction::Done(r) => ActView::Done(reply_view(r)),
        }
    }
}

/// A failure that only has a message.
pub open spec fn plain_error(message: Seq<char>) -> ErrorView {
    ErrorView { status: 0, code: ""@, message, retry_after: 0 }
}

/// The request is answered with a failure.
pub open spec fn failed_with(message: Seq<char>) -> (CallView, ActView) {
    (CallView::Direct, ActView::Done(Err(plain_error(message))))
}

/// The file of an upload is sent.
pub open spec fn sending(body: JsonModel, duration: Option<u64>, preview: JsonModel) -> (
    CallView,
    ActView,
) {
    (
        CallView::Sending(body, duration, preview),
        ActView::Send(
            body.text("path"@),
            body.text("purpose"@),
            if body.text("team"@).len() == 0 {
                None
            } else {
                Some(body.text("team"@))
            },
        ),
    )
}

/// What is done first for a request. A reference is read before it is sent; the
/// address of a file may have to be asked for.
pub open spec fn call_begun(req: RequestView) -> (CallView, ActView) {
    match route_of(req.path) {
        Route::ExportCopy => (CallView::Direct, ActView::CopyFiles),
        Route::Library => (CallView::Direct, ActView::Library(req)),
        Route::Service => (CallView::Direct, ActView::Ask(req)),
        Route::Upload => if req.body.text("purpose"@) == "generation_input"@ {
            (CallView::Probing(req.body), ActView::Probe(req.body.text("path"@)))
        } else {
            sending(req.body, None, JsonModel::Null)
        },
        Route::Download => match req.body.at("endpoint"@).as_text() {
            Some(endpoint) => (
                CallView::Locating(req.body),
                ActView::Call(plain_request("POST"@, endpoint, JsonModel::Null)),
            ),
            None => (
                CallView::Fetching(req.body),
                ActView::Fetch(req.body.text("url"@), req.body.text("path"@)),
            ),
        },
    }
}

/// Whether an event is one that what was being done can end in. What the service
/// registers a file as is an object, or nothing.
pub open spec fn fits(state: CallView, event: EventView) -> bool {
    match state {
        CallView::Direct => event is Replied,
        CallView::Probing(_) => event is Probed,
        CallView::Picturing(_, _) => event is Pictured,
        CallView::Sending(_, _, _) => event is Sent,
        CallView::Registering(_, _, _) => event matches EventView::Replied(r) && (r matches Ok(v)
            ==> v.settable()),
        CallView::Locating(_) => event is Replied,
        CallView::Fetching(_) => event is Fetched,
    }
}

/// What is done next, after an event that fits.
pub open spec fn call_continued(state: CallView, event: EventView) -> (CallView, ActView) {
    match (state, event) {
        (CallView::Direct, EventView::Replied(r)) => (CallView::Direct, ActView::Done(r)),
        (CallView::Probing(body), EventView::Probed(None)) => failed_with(
            "无法读取参考素材，请检查文件是否完整"@,
        ),
        (CallView::Probing(body), EventView::Probed(Some(probe))) => {
            let kind = kind_of_path(body.text("path"@));
            if is_probed_as(kind, probe.has_audio, probe.has_video) {
                (
                    CallView::Picturing(body, probe.duration_ms),
                    ActView::Picture(body.text("path"@), kind),
                )
            } else {
                failed_with("参考素材内容与文件格式不一致"@)
            }
        },
        (CallView::Picturing(body, d), EventView::Pictured(preview)) => sending(body, d, preview),
        (CallView::Sending(body, d, preview), EventView::Sent(Ok(info))) => (
            CallView::Registering(body, d, preview),
            ActView::Call(
                plain_request(
                    "POST"@,
                    upload_endpoint_of(body.text("purpose"@), body.text("team"@)),
                    JsonModel::Object(seq![("upload_id"@, info.at("upload_id"@))]),
                ),
            ),
        ),
        (CallView::Sending(body, d, preview), EventView::Sent(Err(e))) => failed_with(e),
        (CallView::Registering(body, d, preview), EventView::Replied(Ok(registered))) => (
            CallView::Direct,
            ActView::Done(
                Ok(uploaded_of(registered, body, kind_of_path(body.text("path"@)), preview, d)),
            ),
        ),
        (CallView::Registering(body, d, preview), EventView::Replied(Err(e))) => (
            CallView::Direct,
            ActView::Done(Err(e)),
        ),
        (CallView::Locating(body), EventView::Replied(Ok(found))) => (
            CallView::Fetching(body),
            ActView::Fetch(found.text("download_url"@), body.text("path"@)),
        ),
        (CallView::Locating(body), EventView::Replied(Err(e))) => (
            CallView::Direct,
            ActView::Done(Err(e)),
        ),
        (CallView::Fetching(body), EventView::Fetched(Ok(path))) => (
            CallView::Direct,
            ActView::Done(Ok(downloaded_of(body, path))),
        ),
        (CallView::Fetching(body), EventView::Fetched(Err(e))) => failed_with(e),
        _ => arbitrary(),
    }
}

fn fail_with(message: &str) -> (r: (CallState, CallAction))
    ensures
        (r.0@, r.1@) == failed_with(message@),
{
    (CallState::Direct, CallAction::Done(Err(local_error(message))))
}

fn send(body: Json, duration: Option<u64>, preview: Json) -> (r: (CallState, CallAction))
    ensures
        (r.0@, r.1@) == sending(body@, duration, preview@),
{
    let path: String = body.text("path");
    let purpose: String = body.text("purpose");
    let team: String = body.text("team");
    let named: Option<String> = if team.as_str().is_empty() {
        None
    } else {
        Some(team)
    };
    (CallState::Sending(body, duration, preview), CallAction::Send(path, purpose, named))
}

/// What is done first for a request.
pub fn call(req: Request) -> (r: (CallState, CallAction))
    ensures
        (r.0@, r.1@) == call_begun(req@),
{
    match route(req.path.as_str()) {
        Route::ExportCopy => (CallState::Direct, CallAction::CopyFiles),
        Route::Library => (CallState::Direct, CallAction::Library(req)),
        Route::Service => (CallState::Direct, CallAction::Ask(req)),
        Route::Upload => {
            if req.body.text_is("purpose", "generation_input") {
                let path: String = req.body.text("path");
                (CallState::Probing(req.body), CallAction::Probe(path))
            } else {
                send(req.body, None, Json::Null)
            }
        },
        Route::Download => match req.body.at("endpoint").as_text() {
            Some(endpoint) => (
                CallState::Locating(req.body),
                CallAction::Call(request("POST", endpoint.as_str(), Json::Null)),
            ),
            None => {
                let url: String = req.body.text("url");
                let path: String = req.body.text("path");
                (CallState::Fetching(req.body), CallAction::Fetch(url, path))
            },
        },
    }
}

/// What is done next for a request.
pub fn continue_call(state: CallState, event: CallEvent) -> (r: (CallState, CallAction))
    requires
        fits(state@, event@),
    ensures
        (r.0@, r.1@) == call_continued(state@, event@),
{
    match (state, event) {
        (CallState::Direct, CallEvent::Replied(r)) => (CallState::Direct, CallAction::Done(r)),
        (CallState::Probing(body), CallEvent::Probed(read)) => match read {
            None => fail_with("无法读取参考素材，请检查文件是否完整"),
            Some(probe) => {
                let path: String = body.text("path");
                let kind: &'static str = reference_kind(path.as_str());
                if probed_as(kind, probe.has_audio, probe.has_video) {
                    (
                        CallState::Picturing(body, probe.duration_ms),
                        CallAction::Picture(path, kind.to_owned()),
                    )
                } else {
                    fail_with("参考素材内容与文件格式不一致")
                }
            },
        },
        (CallState::Picturing(body, d), CallEvent::Pictured(preview)) => send(body, d, preview),
        (CallState::Sending(body, d, preview), CallEvent::Sent(sent)) => match sent {
            Ok(info) => {
                let purpose: String = body.text("purpose");
                let team: String = body.text("team");
                let registration: Request = register_upload(
                    purpose.as_str(),
                    team.as_str(),
                    &info,
                );
                (CallState::Registering(body, d, preview), CallAction::Call(registration))
            },
            Err(e) => fail_with(e.as_str()),
        },
        (CallState::Registering(body, d, preview), CallEvent::Replied(r)) => match r {
            Ok(registered) => {
                let path: String = body.text("path");
                let kind: &'static str = reference_kind(path.as_str());
                (
                    CallState::Direct,
                    CallAction::Done(Ok(uploaded(registered, &body, kind, preview, d))),
                )
            },
            Err(e) => (CallState::Direct, CallAction::Done(Err(e))),
        },
        (CallState::Locating(body), CallEvent::Replied(r)) => match r {
            Ok(found) => {
                let url: String = found.text("download_url");
                let path: String = body.text("path");
                (CallState::Fetching(body), CallAction::Fetch(url, path))
            },
            Err(e) => (CallState::Direct, CallAction::Done(Err(e))),
        },
        (CallState::Fetching(body), CallEvent::Fetched(r)) => match r {
            Ok(path) => (
                CallState::Direct,
                CallAction::Done(Ok(downloaded(&body, path.as_str()))),
            ),
            Err(e) => fail_with(e.as_str()),
        },
        _ => vstd::pervasive::unreached(),
    }
}

/// A reference is sent only once the media engine has read it, and found it to
/// be of the medium that its name says.
pub proof fn references_are_read_before_they_are_sent(req: RequestView, event: EventView)
    requires
        route_of(req.path) == Route::Upload,
        req.body.text("purpose"@) == "generation_input"@,
        fits(call_begun(req).0, event),
    ensures
        call_begun(req).1 is Probe,
        call_continued(call_begun(req).0, event).1 is Picture <==> (event matches
            EventView::Probed(Some(probe)) && is_probed_as(
            kind_of_path(req.body.text("path"@)),
            probe.has_audio,
            probe.has_video,
        )),
        call_continued(call_begun(req).0, event).1 !is Send,
{
}

/// The answer to an upload names the reference that it was made for.
pub proof fn uploads_answer_their_reference(
    registered: JsonModel,
    body: JsonModel,
    duration: Option<u64>,
    preview: JsonModel,
)
    requires
        registered.settable(),
    ensures
        call_continued(
            CallView::Registering(body, duration, preview),
            EventView::Replied(Ok(registered)),
        ).1 matches ActView::Done(Ok(answer)) && answer.at("client_id"@) == body.at("client_id"@)
            && answer.text("status"@) == "ready"@,
{
    reveal_strlit("local_path");
    reveal_strlit("client_id");
    reveal_strlit("status");
    reveal_strlit("kind");
    reveal_strlit("preview_path");
    reveal_strlit("media_duration_ms");
    reveal_strlit("intent_team");
    let kind = JsonModel::Text(kind_of_path(body.text("path"@)));
    let team = JsonModel::Text(body.text("team"@));
    let place = JsonModel::Text(body.text("path"@));
    let client = body.at("client_id"@);
    let ready = JsonModel::Text("ready"@);
    let s1 = registered.with("local_path"@, place);
    let s2 = s1.with("client_id"@, client);
    let s3 = s2.with("status"@, ready);
    let s4 = s3.with("kind"@, kind);
    let s5 = s4.with("preview_path"@, preview);
    let s6 = match duration {
        Some(n) => s5.with("media_duration_ms"@, crate::json::int_model(n as int)),
        None => s5,
    };
    assert("client_id"@.len() == 9 && "status"@.len() == 6 && "kind"@.len() == 4
        && "preview_path"@.len() == 12 && "media_duration_ms"@.len() == 17
        && "intent_team"@.len() == 11 && "local_path"@.len() == 10);
    replaced_lookup(s1->Object_0, "client_id"@, client, "status"@);
    replaced_lookup(s2->Object_0, "status"@, ready, "client_id"@);
    replaced_lookup(s3->Object_0, "kind"@, kind, "client_id"@);
    replaced_lookup(s3->Object_0, "kind"@, kind, "status"@);
    replaced_lookup(s4->Object_0, "preview_path"@, preview, "client_id"@);
    replaced_lookup(s4->Object_0, "preview_path"@, preview, "status"@);
    if let Some(n) = duration {
        let length = crate::json::int_model(n as int);
        replaced_lookup(s5->Object_0, "media_duration_ms"@, length, "client_id"@);
        replaced_lookup(s5->Object_0, "media_duration_ms"@, length, "status"@);
    }
    replaced_lookup(s6->Object_0, "intent_team"@, team, "client_id"@);
    replaced_lookup(s6->Object_0, "intent_team"@, team, "status"@);
}

} // verus!
