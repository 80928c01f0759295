use concat::cloud::calls::{call, continue_call, CallAction, CallEvent, CallState, Probe};
use concat::cloud::requests::{local_error, request, Request};
use concat::cloud_files::{checked_base, locate_file, open_slot};
use concat::json::{Json, Number};

fn object(fields: &[(&str, &str)]) -> Json {
    Json::from_members(
        fields.iter().map(|(name, value)| (name.to_string(), Json::from_text(value))).collect(),
    )
}

fn begin(path: &str, fields: &[(&str, &str)]) -> (CallState, CallAction) {
    call(request("POST", path, object(fields)))
}

fn message(action: CallAction) -> String {
    match action {
        CallAction::Done(Err(error)) => error.message,
        _ => panic!("the request has not failed"),
    }
}

fn answer(action: CallAction) -> Json {
    match action {
        CallAction::Done(Ok(answer)) => answer,
        _ => panic!("the request is not answered"),
    }
}

fn registration(action: CallAction) -> Request {
    match action {
        CallAction::Call(request) => request,
        _ => panic!("nothing is registered"),
    }
}

const REFERENCE: [(&str, &str); 4] = [
    ("path", "/media/clip.mp4"),
    ("purpose", "generation_input"),
    ("client_id", "c1"),
    ("team", "t1"),
];

#[test]
fn requests_are_routed() {
    let (state, action) = begin("/api/tasks", &[]);
    assert!(matches!(action, CallAction::Ask(req) if req.path == "/api/tasks"));
    let (_, action) = continue_call(state, CallEvent::Replied(Err(local_error("无法连接"))));
    assert_eq!(message(action), "无法连接");
    assert!(matches!(begin("local:export-copy", &[]).1, CallAction::CopyFiles));
    assert!(matches!(
        begin("local:library-list", &[]).1,
        CallAction::Library(req) if req.path == "local:library-list"
    ));
}

#[test]
fn a_reference_is_read_sent_and_registered() {
    let (state, action) = begin("local:upload", &REFERENCE);
    assert!(matches!(action, CallAction::Probe(path) if path == "/media/clip.mp4"));
    let probe = Probe { has_audio: false, has_video: true, duration_ms: Some(1500) };
    let (state, action) = continue_call(state, CallEvent::Probed(Some(probe)));
    assert!(matches!(
        action,
        CallAction::Picture(path, kind) if path == "/media/clip.mp4" && kind == "video"
    ));
    let (state, action) =
        continue_call(state, CallEvent::Pictured(Json::from_text("/small/clip.png")));
    match action {
        CallAction::Send(path, purpose, team) => {
            assert_eq!(path, "/media/clip.mp4");
            assert_eq!(purpose, "generation_input");
            assert_eq!(team.as_deref(), Some("t1"));
        }
        _ => panic!("nothing is sent"),
    }
    let (state, action) =
        continue_call(state, CallEvent::Sent(Ok(object(&[("upload_id", "u1")]))));
    let register = registration(action);
    assert_eq!(register.method, "POST");
    assert_eq!(register.path, "/api/generation/assets");
    assert_eq!(register.body.text("upload_id"), "u1");
    let (_, action) = continue_call(state, CallEvent::Replied(Ok(object(&[("id", "a1")]))));
    let answer = answer(action);
    assert_eq!(answer.text("id"), "a1");
    assert_eq!(answer.text("local_path"), "/media/clip.mp4");
    assert_eq!(answer.text("client_id"), "c1");
    assert_eq!(answer.text("status"), "ready");
    assert_eq!(answer.text("kind"), "video");
    assert_eq!(answer.text("preview_path"), "/small/clip.png");
    assert!(answer.at("media_duration_ms").same(&Json::Number(Number::Unsigned(1500))));
    assert_eq!(answer.text("intent_team"), "t1");
}

#[test]
fn references_that_are_not_what_they_say_are_not_sent() {
    let (state, _) = begin("local:upload", &REFERENCE);
    let (_, action) = continue_call(state, CallEvent::Probed(None));
    assert_eq!(message(action), "无法读取参考素材，请检查文件是否完整");
    let (state, _) = begin("local:upload", &REFERENCE);
    let probe = Probe { has_audio: true, has_video: false, duration_ms: None };
    let (_, action) = continue_call(state, CallEvent::Probed(Some(probe)));
    assert_eq!(message(action), "参考素材内容与文件格式不一致");
}

#[test]
fn files_of_a_team_are_sent_at_once() {
    let fields = [("path", "/media/a.png"), ("purpose", "team_asset"), ("team", "t1")];
    let (state, action) = begin("local:upload", &fields);
    assert!(matches!(action, CallAction::Send(path, _, _) if path == "/media/a.png"));
    let (state, action) = continue_call(state, CallEvent::Sent(Ok(Json::Null)));
    assert_eq!(registration(action).path, "/api/teams/t1/assets");
    let (_, action) = continue_call(state, CallEvent::Replied(Ok(Json::Null)));
    let answer = answer(action);
    assert!(answer.at("preview_path").is_null());
    assert!(answer.get("media_duration_ms").is_none());
    let (state, _) = begin("local:upload", &[("path", "/media/a.png"), ("purpose", "avatar")]);
    let (_, action) = continue_call(state, CallEvent::Sent(Err("文件传输中断".to_owned())));
    assert_eq!(message(action), "文件传输中断");
}

#[test]
fn downloads_ask_for_their_address() {
    let fields = [("endpoint", "/api/assets/a1/download"), ("path", "/tmp/a.png"), ("id", "a1")];
    let (state, action) = begin("local:download", &fields);
    let asked = registration(action);
    assert_eq!(asked.path, "/api/assets/a1/download");
    assert!(asked.body.is_null());
    let (state, action) =
        continue_call(state, CallEvent::Replied(Ok(object(&[("download_url", "/files/a1")]))));
    assert!(matches!(
        action,
        CallAction::Fetch(url, path) if url == "/files/a1" && path == "/tmp/a.png"
    ));
    let (_, action) = continue_call(state, CallEvent::Fetched(Ok("/tmp/a.png".to_owned())));
    let answer = answer(action);
    assert_eq!(answer.text("id"), "a1");
    assert_eq!(answer.text("path"), "/tmp/a.png");
    let (state, action) = begin("local:download", &[("url", "/files/b"), ("path", "/tmp/b.png")]);
    assert!(matches!(action, CallAction::Fetch(url, _) if url == "/files/b"));
    let (_, action) =
        continue_call(state, CallEvent::Fetched(Err("下载文件不完整，请重试".to_owned())));
    assert_eq!(message(action), "下载文件不完整，请重试");
}

#[test]
fn files_go_to_slots_of_the_service() {
    let base = checked_base("https://cut.example").unwrap();
    let slot = open_slot(
        &base,
        &object(&[("method", "PUT"), ("upload_url", "/slots/1")]),
        "image/png",
    )
    .ok()
    .unwrap();
    assert_eq!(slot.url, "https://cut.example/slots/1");
    assert_eq!(slot.headers, vec![("Content-Type".to_owned(), "image/png".to_owned())]);
    let refused = |fields: &[(&str, &str)]| {
        open_slot(&base, &object(fields), "image/png").err().unwrap()
    };
    assert_eq!(refused(&[("method", "POST")]), "服务器返回了不支持的上传方式");
    assert_eq!(
        refused(&[("method", "PUT"), ("upload_url", "https://other.example/1")]),
        "拒绝访问跨源或不安全的文件地址"
    );
    let mut info = object(&[("method", "PUT"), ("upload_url", "/slots/1")]);
    info = info.with("required_headers", object(&[("Cookie", "x")]));
    assert_eq!(
        open_slot(&base, &info, "image/png").err().unwrap(),
        "服务器返回了不允许的上传请求头"
    );
}

#[test]
fn files_are_fetched_from_the_service() {
    assert_eq!(
        locate_file(" https://cut.example ", "files/a b").unwrap().text,
        "https://cut.example/files/a%20b"
    );
    assert_eq!(
        locate_file("http://cut.example", "/files/a").err().unwrap(),
        "服务地址必须是 HTTPS 或本机回环 HTTP 地址"
    );
    assert_eq!(locate_file("cut", "/files/a").err().unwrap(), "服务地址格式无效");
    assert_eq!(
        locate_file("https://cut.example", "https://other.example/a").err().unwrap(),
        "拒绝访问跨源或不安全的文件地址"
    );
}
