use concat::cloud::account::{list_plans, orders_listed, save_task_snapshots, wallet_listed};
use concat::cloud::actions::{act, Surroundings};
use concat::cloud::auth::{
    auth_countdown, auth_request, email_notice, navigation_decision, normalized_auth_email,
    send_auth_code, show_auth, submit_auth, switch_auth, NavigationDecision,
};
use concat::cloud::client::{clear_session, publish, Client, World};
use concat::cloud::export_copy::{
    copy_unique_export, copy_unique_export_progress, export_stem, percent, CopyAction, CopyEvent,
};
use concat::cloud::failures::{poll, JobEnd};
use concat::cloud::fresh::{
    new_auth, new_client, new_personal, new_picker, new_preview, new_prompt, new_queue,
    new_studio, new_tasks, new_team, new_transfers,
};
use concat::cloud::generation::{accept_quote, generation_body, provider_prompt, refresh_quote};
use concat::cloud::imports::{
    begin_handoff, cancel_project_import, import_or_queue_named, project_ready, Destinations,
};
use concat::cloud::library::{
    library_notice, library_operation, library_result, AssetFile, LibraryOp,
};
use concat::cloud::mentions::{complete_mention, open_reference_mention_ui};
use concat::cloud::personal::{group_rows, retain_visible, visible_personal};
use concat::cloud::picker::{
    picker_confirm, picker_toggle, sync_picker_selection, PickerFacts,
};
use concat::cloud::preview::{
    fail_media_preview, finish_media_preview, open_media_preview, set_media_preview,
};
use concat::cloud::preview_fixtures::make_fixtures;
use concat::cloud::preview_validation::validate_preview_state;
use concat::cloud::references::{reference_add_error, remove_reference};
use concat::cloud::requests::{
    accept_service, base_url, job, job_answered, job_failed, message, next_job, read_preview_job,
    refused, request, route, session_expired, FailureStep, JobStart, Request, Route,
};
use concat::cloud::rows::blank_item;
use concat::cloud::session::{
    heartbeat, load_page, navigate, read_preferences,
    read_preferences_with, save_preferences, Preferences,
};
use concat::cloud::steps::{Panel, Step};
use concat::cloud::submissions::{generate, generate_with, generation_listed};
use concat::cloud::tasks::{render_tasks, task_item, tasks_listed};
use concat::cloud::teams::{asset_request, refresh_assets, teams_listed};
use concat::cloud::templates::{refill_task, template_settled};
use concat::cloud::uploads::{
    reference_answered, replace_reference_from_path, upload_personal_reference, upload_with,
};
use concat::cloud_files::{
    api_error, check_announced, check_received, checked_base, checked_same_origin,
    fresh_partial_name, media_type, partial_name, prepare_upload, upload_headers, upload_slot,
    MAX_DOWNLOAD_BYTES,
};
use concat::collections::{TextMap, TextSet};
use concat::generation_templates::{now_millis, validate_name, Library};
use concat::json::{Json, Number};
use concat::sort::{arrange, name_key, time_key};
use concat::urls::loopback;

fn convert(value: &serde_json::Value) -> Json {
    match value {
        serde_json::Value::Null => Json::Null,
        serde_json::Value::Bool(b) => Json::Bool(*b),
        serde_json::Value::Number(n) => Json::Number(if let Some(n) = n.as_u64() {
            Number::Unsigned(n)
        } else if let Some(n) = n.as_i64() {
            Number::Negative(n)
        } else {
            Number::Float(n.to_string())
        }),
        serde_json::Value::String(s) => Json::Text(s.clone()),
        serde_json::Value::Array(v) => Json::Array(v.iter().map(convert).collect()),
        serde_json::Value::Object(v) => {
            Json::Object(v.iter().map(|(key, value)| (key.clone(), convert(value))).collect())
        }
    }
}

/// The document that a text holds.
fn doc(source: &str) -> Json {
    let value: serde_json::Value = serde_json::from_str(source).unwrap();
    convert(&value)
}

fn present(paths: &[&str]) -> TextSet {
    let mut set = TextSet::new();
    for path in paths {
        set.insert(path);
    }
    set
}

fn models() -> Vec<Json> {
    vec![
        doc(r#"{"id":"image-a","display_name":"Image A","kind":"image","parameters":{
            "size":{"default":"1:1","values":["1:1","3:2"]},
            "reference_asset_ids":{"max_items":2,"accepted_media":["image/*"]}}}"#),
        doc(r#"{"id":"video-a","display_name":"Video A","kind":"video","parameters":{
            "duration":{"default":5,"values":[5,10]}}}"#),
    ]
}

/// A client that is signed in and knows two models.
fn signed_in() -> Client {
    let mut c = new_client("/out".into());
    let nothing = TextSet::new();
    let sizes = Vec::new();
    let world = World { present: &nothing, sizes: &sizes };
    c.auth.email = "user@example.com".into();
    c.auth.open = true;
    publish(
        &mut c,
        "login",
        &doc(r#"{"access_token":"secret","user":{"id":"u1","email":"user@example.com"}}"#),
        &world,
    );
    let answer = Json::from_members(vec![("models".into(), Json::from_list(models()))]);
    publish(&mut c, "models", &answer, &world);
    c
}

fn jobs(steps: &[Step]) -> Vec<String> {
    steps
        .iter()
        .filter_map(|step| match step {
            Step::Job(name, _) => Some(name.clone()),
            _ => None,
        })
        .collect()
}

#[test]
fn offline_checks_pass_from_end_to_end() {
    let c = new_client("/out".into());
    let here = present(&["/fixtures/0.png", "/fixtures/1.png"]);
    let fixtures = make_fixtures("/fixtures/absent", "/fixtures/0.png", "/fixtures/1.png");
    let report = match validate_preview_state(c, fixtures, &here) {
        Ok((_, report)) => report,
        Err(message) => panic!("{message}"),
    };
    assert!(report.text_is("status", "passed"));
    assert_eq!(report.at("offline").as_bool(), Some(true));
    assert_eq!(report.list("checks").len(), 11);
    assert_eq!(report.list("limits").len(), 2);
}

#[test]
fn offline_checks_fail_where_the_files_are_gone() {
    let c = new_client("/out".into());
    let fixtures = make_fixtures("/fixtures/absent", "/fixtures/0.png", "/fixtures/1.png");
    let message = match validate_preview_state(c, fixtures, &TextSet::new()) {
        Ok(_) => unreachable!(),
        Err(message) => message,
    };
    assert!(message.starts_with("offline state validation: "));
}

#[test]
fn service_addresses_are_secure_or_local() {
    assert_eq!(base_url(" https://api.example.com/ ").unwrap(), "https://api.example.com");
    assert!(base_url("http://api.example.com").is_err());
    assert!(base_url("not an address").is_err());
    assert!(accept_service("x", None).is_err());
    let base = checked_base(" https://API.example.com ").unwrap();
    assert_eq!(base.text, "https://api.example.com/");
    assert_eq!(base.scheme, "https");
    assert_eq!(base.port, Some(443));
    assert_eq!(checked_base("::").err().unwrap(), "服务地址格式无效");
    assert_eq!(
        checked_base("http://example.com").err().unwrap(),
        "服务地址必须是 HTTPS 或本机回环 HTTP 地址"
    );
    assert!(loopback("127.5.6.7"));
    assert!(loopback("localhost"));
    assert!(!loopback("128.0.0.1"));
    assert!(!loopback("127.0.0.256"));
}

#[test]
fn files_come_from_the_service_alone() {
    let base = checked_base("https://api.example.com").unwrap();
    let file = checked_same_origin(&base, "/files/a b.png").unwrap();
    assert_eq!(file.text, "https://api.example.com/files/a%20b.png");
    assert_eq!(
        checked_same_origin(&base, "https://other.example.com/a.png").err().unwrap(),
        "拒绝访问跨源或不安全的文件地址"
    );
    assert_eq!(checked_same_origin(&base, "http://[").err().unwrap(), "文件地址无效");
}

#[test]
fn downloads_are_kept_where_they_are_complete() {
    assert!(check_announced(None).is_ok());
    assert!(check_announced(Some(MAX_DOWNLOAD_BYTES)).is_ok());
    assert_eq!(
        check_announced(Some(MAX_DOWNLOAD_BYTES + 1)).unwrap_err(),
        "下载文件超过 512 MB 上限"
    );
    assert!(check_received(Some(5), 5).is_ok());
    assert_eq!(check_received(Some(5), 4).unwrap_err(), "下载文件不完整，请重试");
    assert_eq!(check_received(None, 0).unwrap_err(), "下载文件不完整，请重试");
    assert_eq!(
        check_received(None, MAX_DOWNLOAD_BYTES + 1).unwrap_err(),
        "下载文件超过 512 MB 上限"
    );
    assert_eq!(partial_name("/out/a.png", "id"), ".a.png.id.part");
    let first = fresh_partial_name("/out/a.png");
    let second = fresh_partial_name("/out/a.png");
    assert_ne!(first, second);
    assert_eq!(first.len(), ".a.png..part".len() + 36);
}

#[test]
fn uploads_are_announced_before_they_are_sent() {
    let base = checked_base("https://api.example.com").unwrap();
    let upload =
        prepare_upload(&base, "/tmp/a.PNG", true, 12, "team_asset", Some("t1")).ok().unwrap();
    assert_eq!(upload.url, "https://api.example.com/api/uploads");
    assert_eq!(upload.content_type, "image/png");
    assert!(upload.body.text_is("filename", "a.PNG"));
    assert!(upload.body.text_is("team_id", "t1"));
    assert_eq!(upload.body.at("size_bytes").as_u64(), Some(12));
    let fault = |path: &str, is_file: bool, size: u64| {
        prepare_upload(&base, path, is_file, size, "p", None).err().unwrap()
    };
    assert_eq!(fault("/tmp/a.png", true, 0), "上传文件为空或不是普通文件");
    assert_eq!(fault("/tmp/a.png", false, 9), "上传文件为空或不是普通文件");
    assert_eq!(fault("/", true, 9), "上传文件名无效");
    assert_eq!(fault("/tmp/a.txt", true, 9), "不支持该文件类型");
    assert_eq!(media_type("clip.MOV").unwrap(), "video/quicktime");

    assert_eq!(
        upload_headers(&Json::Null, "image/png").unwrap(),
        vec![("Content-Type".to_owned(), "image/png".to_owned())]
    );
    let info = doc(r#"{"required_headers":{"Host":"evil"}}"#);
    assert_eq!(upload_headers(&info, "image/png").unwrap_err(), "服务器返回了不允许的上传请求头");
    let info = doc(r#"{"required_headers":{"X-Part":5}}"#);
    assert_eq!(upload_headers(&info, "image/png").unwrap_err(), "服务器返回了无效的上传请求头");
    assert_eq!(
        upload_slot(&doc(r#"{"method":"PUT","upload_url":"/slot"}"#)).unwrap(),
        "/slot"
    );
    assert_eq!(
        upload_slot(&doc(r#"{"method":"POST"}"#)).unwrap_err(),
        "服务器返回了不支持的上传方式"
    );
    assert_eq!(upload_slot(&doc(r#"{"method":"PUT"}"#)).unwrap_err(), "服务器未返回上传地址");
    assert_eq!(api_error(500, &Json::Null), "文件传输失败 (500)");
    assert_eq!(api_error(500, &doc(r#"{"error":{"message":"满"}}"#)), "满");
}

#[test]
fn documents_are_printed_and_compared() {
    let value = doc(r#"{"a":[1,-2,true,null],"b":"x\ny"}"#);
    assert_eq!(value.print(), r#"{"a":[1,-2,true,null],"b":"x\ny"}"#);
    assert!(value.same(&value.copy()));
    assert!(!value.same(&doc(r#"{"a":[1,-2,true,null],"b":"x"}"#)));
    assert_eq!(value.at("a").same(&value.at("b")), false);
    let changed = value.with("b", Json::from_text("z"));
    assert!(changed.text_is("b", "z"));
    assert!(changed.at("missing").is_null());
}

#[test]
fn rows_are_arranged_by_time_and_by_name() {
    let times = vec![time_key(3), time_key(9), time_key(3)];
    assert_eq!(arrange(&times), vec![1, 0, 2]);
    let names = vec![name_key("b".into()), name_key("a".into())];
    assert_eq!(arrange(&names), vec![1, 0]);
}

#[test]
fn a_refused_page_opens_after_signing_in() {
    let mut form = new_auth();
    let mut back = None;
    form.password = "typed".into();
    assert_eq!(
        navigation_decision(0, 9, false),
        navigation_decision(0, 7, false),
        "pages are held in their range"
    );
    let decision = navigation_decision(1, 3, false);
    assert_eq!(decision, NavigationDecision::Authenticate { stay: 1, target: 3 });
    let steps = show_auth(&mut form, &mut back, false, Some(3));
    assert!(matches!(&steps[..], [Step::Error(e), Step::Notice(n)] if e.is_empty() && n.is_empty()));
    assert!(show_auth(&mut form, &mut None, true, None).is_empty(), "signed in already");
    assert!(form.open);
    assert!(form.password.is_empty());
    assert_eq!(back, Some(3));
}

#[test]
fn account_forms_say_what_is_wrong() {
    let fault = |mode, password: &str, again: &str, code: &str| {
        auth_request(mode, "user@example.com", password, again, code).err().unwrap()
    };
    assert_eq!(fault(0, "", "", ""), "请输入密码");
    assert_eq!(fault(1, "short", "short", ""), "密码需要 10 到 128 个字符");
    assert_eq!(fault(1, "long-password", "other-password", ""), "两次输入的密码不一致");
    assert_eq!(fault(3, "", "", "12a456"), "请输入邮件中的 6 位验证码");
    assert_eq!(fault(9, "", "", ""), "请返回登录后重试");
    assert_eq!(normalized_auth_email(" ÄB@X.com ").unwrap(), "äb@x.com");
    assert!(normalized_auth_email("no-address").is_err());
}

#[test]
fn codes_are_sent_once_at_a_time() {
    let mut form = new_auth();
    form.email = "User@Example.com".into();
    form.mode = 4;
    let steps = send_auth_code(&mut form, 4);
    match &steps[..] {
        [Step::Notice(notice), Step::Job(name, req)] => {
            assert!(notice.is_empty());
            assert_eq!(name, "password-reset-request");
            assert_eq!(req.path, "/api/auth/forgot-password");
            assert!(req.body.text_is("email", "user@example.com"));
        }
        _ => unreachable!(),
    }
    assert_eq!(form.email, "user@example.com");
    form.resend_seconds = 2;
    assert!(send_auth_code(&mut form, 4).is_empty());
    auth_countdown(&mut form);
    auth_countdown(&mut form);
    auth_countdown(&mut form);
    assert_eq!(form.resend_seconds, 0);
    assert_eq!(jobs(&send_auth_code(&mut form, 3)), vec!["verification-resend"]);
    form.busy = true;
    assert!(send_auth_code(&mut form, 3).is_empty());
    assert!(submit_auth(&mut form).is_empty());
}

#[test]
fn account_forms_tell_by_one_error_and_one_notice() {
    let mut form = new_auth();
    form.email = "no-address".into();
    let steps = submit_auth(&mut form);
    assert!(matches!(&steps[..], [Step::Notice(n), Step::Error(e)]
        if n.is_empty() && e == "请输入有效的邮箱地址"));
    let steps = send_auth_code(&mut form, 3);
    assert!(matches!(&steps[..], [Step::Error(e)] if e == "请输入有效的邮箱地址"));
    let told = |mode: i32, delivery: &str| {
        let mut form = new_auth();
        form.mode = mode;
        let text = format!("{{\"email_delivery\":\"{delivery}\"}}");
        match email_notice(&form, &doc(&text)) {
            Step::Error(message) => (true, message),
            Step::Notice(message) => (false, message),
            _ => unreachable!(),
        }
    };
    assert_eq!(told(3, "failed"), (true, "邮件发送失败，请稍后重新发送".to_owned()));
    assert_eq!(told(3, "not_configured"), (true, "邮件服务尚未配置，请联系管理员".to_owned()));
    assert!(told(3, "sent").1.starts_with("验证码已发送"));
    assert!(told(4, "queued").1.starts_with("若该邮箱已注册"));
    assert!(told(3, "queued").1.starts_with("若该邮箱尚未验证"));
    form.resend_seconds = 9;
    form.password = "typed".into();
    let steps = switch_auth(&mut form, 1);
    assert!(matches!(&steps[..], [Step::Error(e), Step::Notice(n)] if e.is_empty() && n.is_empty()));
    assert_eq!(form.resend_seconds, 0);
    assert!(form.password.is_empty());
}

#[test]
fn refreshes_wait_once() {
    let mut queue = new_queue();
    let tasks = || request("GET", "/api/generation/tasks", Json::Null);
    let (start, _) = job(&mut queue, true, "models", request("GET", "/api/generation/models", Json::Null));
    assert!(matches!(start, JobStart::Running(_, _)));
    for _ in 0..3 {
        let (start, _) = job(&mut queue, true, "tasks", tasks());
        assert!(matches!(start, JobStart::Waiting));
    }
    assert_eq!(queue.pending.len(), 1);
    assert!(!job_answered(&mut queue, 7), "another session");
    assert!(job_answered(&mut queue, 0));
    assert_eq!(next_job(&mut queue).unwrap().0, "tasks");
    assert!(next_job(&mut queue).is_none());
}

#[test]
fn requests_are_held_back_without_a_session() {
    let mut queue = new_queue();
    let (start, _) = job(&mut queue, false, "tasks", request("GET", "/api/generation/tasks", Json::Null));
    assert!(matches!(start, JobStart::Dropped));
    let (start, _) = job(&mut queue, false, "generate", request("POST", "/api/generation/images", Json::Null));
    assert!(matches!(start, JobStart::SignIn));
    assert!(!queue.busy);
}

#[test]
fn quotes_are_asked_without_the_kind_in_the_label() {
    let mut queue = new_queue();
    let body = doc(r#"{"kind":"image","prompt":"p"}"#);
    let (start, clears) = job(&mut queue, true, "quote", request("POST", "/api/generation/quote", body));
    match start {
        JobStart::Running(req, label) => {
            assert!(req.body.text_is("kind", "image"));
            assert!(label.same(&doc(r#"{"prompt":"p"}"#)));
        }
        _ => unreachable!(),
    }
    assert!(!clears);
}

#[test]
fn requests_carry_their_session_and_key() {
    let req = Request {
        method: "POST".into(),
        path: "/api/x".into(),
        body: Json::Null,
        idem: Some("key".into()),
    };
    let sent = message("https://api.example.com", "secret", &req);
    assert_eq!(sent.url, "https://api.example.com/api/x");
    assert_eq!(
        sent.headers,
        vec![
            ("Authorization".to_owned(), "Bearer secret".to_owned()),
            ("Idempotency-Key".to_owned(), "key".to_owned()),
        ]
    );
    assert!(sent.with_body);
    let bare = message("https://api.example.com", "", &request("GET", "/", Json::Null));
    assert!(bare.headers.is_empty() && !bare.with_body);
    assert!(matches!(route("local:upload"), Route::Upload));
    assert!(matches!(route("local:download"), Route::Download));
    assert!(matches!(route("local:export-copy"), Route::ExportCopy));
    assert!(matches!(route("local:library-list"), Route::Library));
    assert!(matches!(route("/api/teams"), Route::Service));
}

#[test]
fn refusals_are_read_and_acted_on() {
    let error = refused(429, &doc(r#"{"error":{"code":"SLOW","message":"慢","retry_after":9000}}"#));
    assert_eq!((error.message.as_str(), error.retry_after), ("慢", 3600));
    assert_eq!(refused(500, &Json::Null).message, "请求失败 (500)");
    assert_eq!(
        refused(400, &doc(r#"{"error":{"code":"GENERATION_ASSET_GONE","message":"x"}}"#)).message,
        "参考素材已过期或不可用，请重新上传"
    );
    let expired = refused(401, &Json::Null);
    assert!(session_expired(&expired));
    let (steps, draws) = job_failed("tasks", &expired, true);
    assert!(matches!(&steps[..], [FailureStep::SessionExpired]) && !draws);
    let (steps, draws) = job_failed("personal-dialog-rename", &error, true);
    assert!(matches!(&steps[..], [FailureStep::DialogError(m)] if m == "慢") && draws);
    let (steps, _) = job_failed("logout", &error, true);
    assert!(matches!(&steps[..], [FailureStep::LoggedOut]));
    assert_eq!(read_preview_job("tasks"), None);
}

#[test]
fn prompts_reach_the_provider_with_their_numbers() {
    assert_eq!(provider_prompt(0, " 用@[图片1] "), "用第1张参考图片");
    assert_eq!(provider_prompt(1, "按@[视频2]运动"), "按视频2运动");
}

#[test]
fn mentions_are_completed_at_the_cursor() {
    let mut form = new_prompt();
    form.prompt = "前后".into();
    form.prompt_cursor = "前".len() as i32;
    open_reference_mention_ui(&mut form);
    assert_eq!(form.prompt, "前@后");
    assert!(form.mention_open);
    assert!(complete_mention(&mut form, "图片", 1));
    assert_eq!(form.prompt, "前@[图片1] 后");
    assert!(!form.mention_open);
}

#[test]
fn removing_a_reference_renumbers_the_others() {
    let mut references = vec![
        doc(r#"{"client_id":"a","kind":"image"}"#),
        doc(r#"{"client_id":"b","kind":"image"}"#),
        doc(r#"{"client_id":"c","kind":"image"}"#),
    ];
    let mut form = new_prompt();
    form.prompt = "@[图片1] @[图片2] @[图片3]".into();
    assert!(remove_reference(&mut references, &mut form, "b"));
    assert_eq!(references.len(), 2);
    assert_eq!(form.prompt, "@[图片1] [已移除参考图片] @[图片2]");
    assert!(!remove_reference(&mut references, &mut form, "b"));
}

#[test]
fn signing_in_shows_the_account_and_the_models() {
    let c = signed_in();
    assert!(c.studio.signed_in);
    assert!(!c.auth.open);
    assert_eq!(c.account.token, "secret");
    assert_eq!(c.account.email, "user@example.com");
    assert_eq!(c.account.label, "U");
    assert_eq!(c.account.snapshot_name, "u1-task-inputs.json");
    assert_eq!(c.account.history_name, "u1-history.json");
    assert_eq!(c.studio.form.model_names, vec!["Image A".to_owned()]);
    let (temporary, target) = save_task_snapshots(&c.account, "/out", "id").unwrap();
    assert_eq!(temporary, "/out/.u1-task-inputs.json.id.tmp");
    assert_eq!(target, "/out/u1-task-inputs.json");
    let stranger = new_client("/out".into());
    assert_eq!(
        save_task_snapshots(&stranger.account, "/out", "id").unwrap_err(),
        "尚未登录，无法保存历史任务配置"
    );
}

fn assert_shows_the_end(steps: &[Step]) {
    assert!(steps.iter().any(|s| matches!(s, Step::Members(rows) if rows.is_empty())));
    assert!(steps.iter().any(|s| matches!(s, Step::Ledger(rows) if rows.is_empty())));
    for panel in [Panel::Tasks, Panel::Assets, Panel::References, Panel::Orders] {
        assert!(steps.iter().any(|s| matches!(s, Step::Draw(p) if *p == panel)));
    }
}

#[test]
fn the_window_is_told_when_a_session_ends() {
    let nothing = TextSet::new();
    let sizes = Vec::new();
    let world = World { present: &nothing, sizes: &sizes };
    let ends = [
        ("logout", Json::Null, ""),
        ("password-reset-confirm", Json::Null, "密码已更新，请使用新密码登录"),
    ];
    for (name, value, notice) in ends {
        let mut c = signed_in();
        let steps = publish(&mut c, name, &value, &world);
        assert_shows_the_end(&steps);
        assert!(matches!(steps.last(), Some(Step::Notice(n)) if n == notice));
        assert!(!c.studio.signed_in);
    }
    let mut c = signed_in();
    let value = doc(r#"{"access_token":"next","user":{"id":"u2"}}"#);
    let steps = publish(&mut c, "login", &value, &world);
    assert_shows_the_end(&steps);
    let mut c = signed_in();
    let epoch = c.queue.epoch;
    let end = JobEnd::Failed(refused(500, &Json::Null));
    let (steps, next) = poll(&mut c, "logout", epoch, end, &world);
    assert_shows_the_end(&steps);
    assert!(matches!(steps.last(), Some(Step::Notice(n)) if n == "已在本机退出登录"));
    assert!(!next && c.auth.open);
}

#[test]
fn plans_are_kept_and_shown() {
    let nothing = TextSet::new();
    let sizes = Vec::new();
    let world = World { present: &nothing, sizes: &sizes };
    let mut c = signed_in();
    let value = doc(
        r#"{"items":[{"id":"p1","name":"入门","price_fen":990,"credits":100},{"id":"p2","name":"专业"}]}"#,
    );
    let steps = publish(&mut c, "plans", &value, &world);
    assert!(matches!(&steps[..], [Step::Draw(Panel::Plans)]));
    assert_eq!(c.account.plans.len(), 2);
    let rows = list_plans(&c.account.plans, &vec!["¥9.90".into(), "¥0.00".into()]);
    let shown: Vec<_> = rows
        .iter()
        .map(|row| (row.id.as_str(), row.name.as_str(), row.price.as_str(), row.credits.as_str()))
        .collect();
    assert_eq!(
        shown,
        vec![("p1", "入门", "¥9.90", "100 积分"), ("p2", "专业", "¥0.00", "null 积分")]
    );
    clear_session(&mut c, false);
    assert_eq!(c.account.plans.len(), 2, "the plans are nobody's");
}

#[test]
fn an_ended_session_leaves_nothing() {
    let mut c = signed_in();
    c.studio.references = vec![doc(r#"{"client_id":"a","kind":"image"}"#)];
    c.intents.references.push(("/tmp/a.png".into(), "a.png".into()));
    c.account.orders = vec![doc(r#"{"id":"o1"}"#)];
    let epoch = c.queue.epoch;
    let steps = clear_session(&mut c, false);
    assert_shows_the_end(&steps);
    assert_eq!(steps.len(), 6);
    assert!(c.account.orders.is_empty());
    assert!(!c.studio.signed_in);
    assert!(c.account.token.is_empty());
    assert!(c.tasks.tasks.is_empty());
    assert!(c.queue.pending.is_empty());
    assert!(c.intents.references.is_empty());
    assert_eq!(c.queue.epoch, epoch + 1);
}

#[test]
fn generations_are_quoted_and_sent_once() {
    let mut c = signed_in();
    c.studio.prompt.prompt = "一张海报".into();
    let s = &mut c.studio;
    assert!(matches!(&generate(s)[..], [Step::RefreshQuote]), "no offer yet");
    let asked = refresh_quote(
        &mut s.quote,
        &s.form,
        &s.prompt.prompt,
        &s.catalog,
        &s.references,
        true,
    )
    .unwrap();
    assert_eq!(asked.path, "/api/generation/quote");
    assert!(asked.body.text_is("kind", "image"));
    let body = generation_body(&s.form, &s.prompt.prompt, &s.catalog, &s.references);
    let answer = Json::from_members(vec![
        ("quote_id".into(), Json::from_text("q1")),
        ("credits".into(), Json::from_u64(5)),
        ("client_request_body".into(), body),
    ]);
    let accepted = accept_quote(
        &mut s.quote,
        &answer,
        &s.form,
        &s.prompt.prompt,
        &s.catalog,
        &s.references,
        false,
        Some(3),
    );
    assert!(accepted);
    assert!(s.quote.can_generate && s.quote.insufficient);
    assert_eq!(s.quote.text, "预计消耗 5 积分");
    let key = |steps: &[Step]| match &steps[0] {
        Step::Job(name, req) => {
            assert_eq!(name, "generate");
            assert!(req.body.text_is("quote_id", "q1"));
            req.idem.clone().unwrap()
        }
        _ => unreachable!(),
    };
    let first = key(&generate_with(s, "key-1"));
    assert_eq!(first, "key-1");
    assert_eq!(key(&generate_with(s, "key-2")), "key-1", "the same request keeps its key");
    assert_eq!(key(&generate(s)), "key-1");
    s.prompt.prompt = "另一张海报".into();
    assert!(matches!(&generate_with(s, "key-3")[..], [Step::RefreshQuote]));
    s.prompt.prompt = "一张海报".into();
    let mut list = new_tasks("/out".into());
    generation_listed(s, &mut list, &doc(r#"{"id":"task-1"}"#));
    assert!(s.submission.is_none());
    assert!(!s.quote.can_generate);
    assert!(list.snapshots.has("task-1"));
}

#[test]
fn a_quote_for_another_form_is_left_alone() {
    let mut c = signed_in();
    let s = &mut c.studio;
    s.prompt.prompt = "一张海报".into();
    let answer = doc(r#"{"quote_id":"q1","credits":5,"client_request_body":{"prompt":"old"}}"#);
    assert!(!accept_quote(
        &mut s.quote,
        &answer,
        &s.form,
        &s.prompt.prompt,
        &s.catalog,
        &s.references,
        false,
        None
    ));
    assert!(s.quote.id.is_empty());
}

#[test]
fn references_are_uploaded_once() {
    let mut c = signed_in();
    let local = TextMap::new();
    let assets = Vec::new();
    let first = upload_with(
        &mut c.studio,
        &mut c.intents,
        &assets,
        &local,
        "/tmp/a.png",
        "generation_input",
        "",
        "ref-1",
    );
    assert_eq!(jobs(&first), vec!["reference:ref-1"]);
    let again = upload_with(
        &mut c.studio,
        &mut c.intents,
        &assets,
        &local,
        "/tmp/a.png",
        "generation_input",
        "",
        "ref-2",
    );
    assert!(matches!(&again[..], [Step::Notice(m)] if m == "该结果已在参考列表中"));
    assert_eq!(c.studio.references.len(), 1);
    reference_answered(&mut c.studio, "ref-1", doc(r#"{"id":"asset-1","status":"ready"}"#));
    assert!(c.studio.references[0].text_is("id", "asset-1"));
    assert!(c.studio.references[0].text_is("client_id", "ref-1"));
    assert!(c.studio.references[0].text_is("local_path", "/tmp/a.png"));
    upload_personal_reference(
        &mut c.studio,
        &mut c.intents,
        &assets,
        &local,
        "/tmp/b.png",
        "二号",
    );
    assert_eq!(c.studio.references.len(), 2);
    assert!(c.studio.references[1].text_is("display_name", "二号"));
    let full = reference_add_error(0, 0, &c.studio.catalog, &c.studio.references, "image");
    assert!(full.is_some(), "the model takes two files");
    let mismatch = replace_reference_from_path(&mut c.studio, "ref-1", "/tmp/v.mp4", true);
    assert_eq!(mismatch.err().unwrap(), "替换素材类型不匹配，需要图片");
    let gone = replace_reference_from_path(&mut c.studio, "ref-1", "/tmp/c.png", false);
    assert_eq!(gone.err().unwrap(), "替换素材文件不可用，请重新选择");
    let odd = replace_reference_from_path(&mut c.studio, "ref-1", "/tmp/c.txt", true);
    assert_eq!(odd.err().unwrap(), "替换素材格式不受支持");
    let unknown = replace_reference_from_path(&mut c.studio, "ref-9", "/tmp/c.png", true);
    assert_eq!(unknown.err().unwrap(), "未找到待替换的参考素材");
    let steps = replace_reference_from_path(&mut c.studio, "ref-1", "/tmp/c.png", true);
    assert_eq!(jobs(&steps.ok().unwrap()), vec!["reference:ref-1"]);
    assert!(c.studio.references[0].text_is("local_path", "/tmp/c.png"));
}

#[test]
fn files_of_strangers_wait_for_a_session() {
    let mut c = new_client("/out".into());
    let local = TextMap::new();
    let assets = Vec::new();
    for _ in 0..2 {
        let steps = upload_with(
            &mut c.studio,
            &mut c.intents,
            &assets,
            &local,
            "/tmp/a.png",
            "generation_input",
            "",
            "x",
        );
        assert!(matches!(&steps[..], [Step::ShowAuth(Some(1))]));
    }
    assert_eq!(c.intents.references.len(), 1);
    let steps = upload_with(
        &mut c.studio,
        &mut c.intents,
        &assets,
        &local,
        "/tmp/a.png",
        "team_asset",
        "t",
        "x",
    );
    assert!(matches!(&steps[..], [Step::ShowAuth(Some(2))]));
}

#[test]
fn preferences_come_back() {
    let saved = save_preferences(&Preferences {
        folder: "/movies".into(),
        reduced_motion: true,
        creator_mode: 1,
    });
    let read = read_preferences(&saved, "/home/u");
    assert_eq!(read.folder, "/movies");
    assert!(read.reduced_motion);
    assert_eq!(read.creator_mode, 1);
    let first = read_preferences(&Json::Null, "/home/u");
    assert_eq!(first.folder, "/home/u/Movies/SeeCut");
    assert_eq!(first.creator_mode, -1);
    let relative = read_preferences(&doc(r#"{"folder":"here","creator_mode":7}"#), "/home/u");
    assert_eq!(relative.folder, "/home/u/Movies/SeeCut");
    assert_eq!(relative.creator_mode, 1);
    let drive = doc(r#"{"folder":"C:\\movies"}"#);
    assert_eq!(read_preferences_with(&drive, "/home/u", true).folder, "C:\\movies");
    assert_eq!(read_preferences_with(&drive, "/home/u", false).folder, "/home/u/Movies/SeeCut");
}

#[test]
fn pages_load_what_they_show() {
    assert_eq!(jobs(&load_page(3, true)), vec!["plans", "wallet", "orders"]);
    assert_eq!(jobs(&load_page(1, false)), Vec::<String>::new());
    assert_eq!(jobs(&heartbeat(true, false, 1)), vec!["tasks"]);
    assert!(heartbeat(true, true, 1).is_empty());
    let steps = navigate(1, 6, false, "");
    assert!(steps.iter().any(|step| matches!(step, Step::GalleryOpen(true))));
    let steps = navigate(1, 0, true, "请先登录");
    assert!(matches!(&steps[0], Step::Error(m) if m.is_empty()));
    let steps = navigate(1, 2, false, "");
    assert!(matches!(&steps[..], [Step::ShowAuth(Some(2))]));
}

#[test]
fn wallets_and_orders_are_shown_once() {
    let mut c = signed_in();
    c.studio.quote.credits = Some(9);
    wallet_listed(
        &mut c.account,
        &mut c.studio.quote,
        &doc(r#"{"available_credits":5,"held_credits":-1}"#),
    );
    assert_eq!((c.account.balance.as_str(), c.account.frozen.as_str()), ("5", "-1"));
    assert!(c.studio.quote.insufficient);
    orders_listed(&mut c.account, "orders", &doc(r#"{"items":[{"id":"o1"},{"id":"o2"}]}"#));
    let steps = orders_listed(
        &mut c.account,
        "purchase",
        &doc(r#"{"id":"o1","status":"paid","payment_url":"https://openapi.alipay.com/pay"}"#),
    );
    assert_eq!(c.account.orders.len(), 2);
    assert!(matches!(&steps[..], [Step::Draw(Panel::Orders), Step::Job(name, _)] if name == "wallet"));
    let steps = orders_listed(
        &mut c.account,
        "purchase",
        &doc(r#"{"id":"o1","payment_action":{"url":"https://openapi.alipay.com/pay"}}"#),
    );
    assert!(matches!(&steps[1], Step::OpenFile(url) if url == "https://openapi.alipay.com/pay"));
    let steps = orders_listed(
        &mut c.account,
        "purchase",
        &doc(r#"{"id":"o3","payment_url":"https://evil.example.com/pay"}"#),
    );
    assert!(!steps.iter().any(|step| matches!(step, Step::OpenFile(_))));
    assert_eq!(c.account.orders.len(), 3);
}

#[test]
fn library_requests_name_their_operation() {
    let ask = |operation: &str, body: &str| {
        request("POST", &format!("local:library-{operation}"), doc(body))
    };
    assert_eq!(
        library_operation(&ask("rename", r#"{"id":"a","name":"n"}"#), false).err().unwrap(),
        "未找到该个人资产，请刷新后重试"
    );
    assert_eq!(
        library_operation(&ask("burn", "{}"), false).err().unwrap(),
        "未知的个人资产操作"
    );
    let op = library_operation(&ask("move", r#"{"ids":["a","b"],"folder_id":"f"}"#), false)
        .ok()
        .unwrap();
    assert!(matches!(&op, LibraryOp::Move(ids, Some(f)) if ids.len() == 2 && f == "f"));
    assert_eq!(library_notice(&op, 2), "已整理 2 项素材");
    assert_eq!(library_notice(&op, 0), "");
    let op = library_operation(&ask("trash-selected", r#"{"ids":["a"]}"#), false).ok().unwrap();
    assert_eq!(library_notice(&op, 1), "已回收 1 项资产");
}

#[test]
fn later_files_of_the_library_come_first() {
    let assets = vec![
        doc(r#"{"id":"old","created_at":1,"path":"/a.png"}"#),
        doc(r#"{"id":"new","created_at":2,"path":"/b.png"}"#),
    ];
    let file = |bytes| AssetFile {
        bytes,
        dimensions: None,
        duration_ms: None,
        thumbnail: Json::Null,
    };
    let result =
        library_result(&assets, &vec![file(Some(4)), file(None)], Vec::new(), "完成".into());
    let items = result.list("items");
    assert!(items[0].text_is("id", "new"));
    assert_eq!(items[0].at("available").as_bool(), Some(false));
    assert_eq!(items[1].at("available").as_bool(), Some(true));
    assert!(result.text_is("notice", "完成"));
}

#[test]
fn names_of_exports_are_short_and_free() {
    assert_eq!(export_stem("a/b", 40), "a_b");
    assert!(export_stem(&"长".repeat(90), 40).len() <= 40);
    let taken = present(&["/out/film.mp4"]);
    assert_eq!(
        copy_unique_export("/x/film.mp4", "/out", "film", "id", &taken).unwrap(),
        "/out/film-id.mp4"
    );
    let (action, tried) =
        copy_unique_export_progress("/x/film.mp4", "film", "id", 0, false, CopyEvent::Begin);
    assert!(matches!(&action, CopyAction::Create(name) if name == "film.mp4"));
    let (action, tried) =
        copy_unique_export_progress("/x/film.mp4", "film", "id", tried, false, CopyEvent::NameTaken);
    assert!(matches!(&action, CopyAction::Create(name) if name == "film-id.mp4"));
    let (action, _) =
        copy_unique_export_progress("/x/film.mp4", "film", "id", tried, true, CopyEvent::NameTaken);
    assert!(matches!(action, CopyAction::GivenUp));
    assert_eq!(percent(1, 2), 50);
    assert_eq!(percent(0, 0), 0);
}

#[test]
fn waiting_files_go_into_the_project_once() {
    let mut transfers = new_transfers();
    import_or_queue_named(&mut transfers, false, "/a.png".into(), Some("甲".into()));
    import_or_queue_named(&mut transfers, false, "/a.png".into(), None);
    import_or_queue_named(&mut transfers, false, "/b.png".into(), Some(" ".into()));
    assert_eq!(transfers.count, 2);
    let steps = project_ready(&mut transfers);
    match &steps[2] {
        Step::ImportPaths(imports) => {
            assert_eq!(imports[0].name.as_deref(), Some("甲"));
            assert_eq!(imports[1].path, "/b.png");
            assert_eq!(imports[1].name, None);
        }
        _ => unreachable!(),
    }
    assert!(transfers.pending.is_empty());
    import_or_queue_named(&mut transfers, false, "/c.png".into(), None);
    assert_eq!(cancel_project_import(&mut transfers).len(), 1);
    assert_eq!(transfers.count, 0);
    assert!(cancel_project_import(&mut transfers).is_empty());
}

#[test]
fn handoffs_take_pictures_that_are_there() {
    let destinations =
        Destinations { canvas: None, canvases: Vec::new(), clip: None, clips: Vec::new() };
    let mut transfers = new_transfers();
    let here = present(&["/a.png", "/v.mp4"]);
    let steps = begin_handoff(
        &mut transfers,
        "canvas",
        &vec!["/gone.png".to_owned()],
        &here,
        &destinations,
        1,
    );
    assert!(matches!(&steps[..], [Step::Error(_)]));
    let steps = begin_handoff(
        &mut transfers,
        "canvas",
        &vec!["/v.mp4".to_owned()],
        &here,
        &destinations,
        1,
    );
    assert!(matches!(&steps[..], [Step::Error(_)]));
    assert!(!transfers.open);
    let steps = begin_handoff(
        &mut transfers,
        "canvas",
        &vec!["/a.png".to_owned()],
        &here,
        &destinations,
        1,
    );
    assert!(steps.is_empty());
    assert!(transfers.open);
    assert_eq!(transfers.handoff_count, 1);
    assert_eq!(transfers.source_page, 1);
}

#[test]
fn teams_show_their_own_files() {
    let mut page = new_team();
    teams_listed(
        &mut page,
        &doc(r#"{"items":[{"id":"t1","name":"一队","role":"owner"},{"id":"t2","name":"二队"}]}"#),
    );
    assert!(page.owner);
    assert_eq!(page.names, vec!["一队".to_owned(), "二队".to_owned()]);
    assert_eq!(jobs(&refresh_assets(&mut page, true)), vec!["assets"]);
    assert_eq!(page.assets_context, asset_request("t1", false));
    assert_eq!(page.assets_context, "/api/teams/t1/assets?trash=false");
    page.assets = vec![doc(r#"{"id":"a"}"#)];
    page.index = 1;
    refresh_assets(&mut page, true);
    assert!(page.assets.is_empty(), "another team, other files");
    assert!(refresh_assets(&mut page, false).is_empty());
}

#[test]
fn chosen_tasks_are_followed() {
    let mut list = new_tasks("/out".into());
    let first = doc(r#"{"items":[{"id":"a","status":"running"},{"id":"b","status":"running"}]}"#);
    tasks_listed(&mut list, &first, &TextSet::new());
    list.selected_task = 1;
    list.preview_open = true;
    list.selected.insert("b");
    let second = doc(r#"{"items":[{"id":"b","status":"running"},{"id":"a","status":"running"}]}"#);
    tasks_listed(&mut list, &second, &TextSet::new());
    assert_eq!(list.selected_task, 0);
    assert!(list.preview_open);
    assert!(list.selected.has("b"));
    let third = doc(r#"{"items":[{"id":"a","status":"running"}]}"#);
    tasks_listed(&mut list, &third, &TextSet::new());
    assert!(!list.selected.has("b"));
    assert!(!list.preview_open);
    let rows = render_tasks(&list, &TextSet::new());
    assert_eq!(rows.len(), 1);
    assert!(refill_task(&list, "gone").is_err());
    let item = task_item(&doc(
        r#"{"id":"t","kind":"video","status":"failed","error":{"message":"额度不足"}}"#,
    ));
    assert_eq!(item.detail, "额度不足");
}

#[test]
fn choosing_twice_changes_nothing() {
    let mut picker = new_picker();
    let page = new_team();
    picker.open = true;
    picker.purpose = "import".into();
    let personal = vec![
        doc(r#"{"id":"a","name":"A","kind":"image","path":"/a.png","available":true,"trashed":false}"#),
        doc(r#"{"id":"b","name":"B","kind":"image","path":"/b.png","available":true,"trashed":false}"#),
    ];
    sync_picker_selection(&mut picker, &page);
    picker_toggle(&mut picker, &personal, &page, "b");
    picker_toggle(&mut picker, &personal, &page, "a");
    assert_eq!(picker.selected, vec!["b".to_owned(), "a".to_owned()]);
    picker_toggle(&mut picker, &personal, &page, "a");
    picker_toggle(&mut picker, &personal, &page, "a");
    assert_eq!(picker.selected, vec!["b".to_owned(), "a".to_owned()]);
    sync_picker_selection(&mut picker, &page);
    assert_eq!(picker.count, 2);
    let studio = new_studio();
    let local = TextMap::new();
    let here = present(&["/a.png", "/b.png"]);
    let references = Vec::new();
    let facts = PickerFacts {
        mode: 0,
        model_index: 0,
        catalog: &studio.catalog,
        references: &references,
        personal: &personal,
        page: &page,
        local: &local,
        present: &here,
        folder: "/out",
        signed_in: false,
    };
    let steps = picker_confirm(&mut picker, &facts);
    assert!(matches!(&steps[..], [Step::Error(m), Step::ContinuePicker] if m.is_empty()));
    let batch = picker.batch.as_ref().unwrap();
    assert_eq!(batch.items[0].local_path, "/b.png");
    assert_eq!(batch.items[1].local_path, "/a.png");
}

#[test]
fn late_answers_leave_the_preview_alone() {
    let mut preview = new_preview();
    let item = || {
        let mut item = blank_item();
        item.id = "same".into();
        item
    };
    let first = set_media_preview(&mut preview, "asset", item(), true, "");
    let second = set_media_preview(&mut preview, "task", item(), true, "");
    assert_ne!(first, second);
    finish_media_preview(&mut preview, "same", "/late.png", Some(first));
    fail_media_preview(&mut preview, "same", first, "late");
    assert!(preview.loading && preview.error.is_empty() && !preview.item.ready);
    finish_media_preview(&mut preview, "same", "/now.png", Some(second));
    assert!(!preview.loading && preview.item.ready);
    assert_eq!(preview.item.preview, "/now.png");
}

#[test]
fn shown_files_stay_chosen() {
    let mut page = new_personal();
    page.assets = vec![
        doc(r#"{"id":"a","name":"Álbum","kind":"image","created_at":1,"trashed":false}"#),
        doc(r#"{"id":"b","name":"film","kind":"video","created_at":2,"trashed":false}"#),
        doc(r#"{"id":"c","name":"old","kind":"image","created_at":3,"trashed":true}"#),
    ];
    assert_eq!(visible_personal(&page), vec![1, 0]);
    for id in ["a", "b", "c"] {
        page.selected.insert(id);
    }
    page.search = "ÁLB".into();
    assert_eq!(visible_personal(&page), vec![0]);
    retain_visible(&mut page);
    assert_eq!(page.selected.texts(), &vec!["a".to_owned()]);
    let groups = group_rows(0, &Vec::new());
    assert!(groups.is_empty());
}

#[test]
fn templates_come_back_after_a_failed_write() {
    let mut library = Library::load("/templates", None);
    let id = library
        .save_current_at(
            None,
            "海报",
            "p".into(),
            0,
            "image-model".into(),
            Json::empty_object(),
            Vec::new(),
            5,
            "fresh".into(),
        )
        .unwrap();
    assert_eq!(id, "fresh");
    assert_eq!(library.settle(Err("disk".into())).unwrap_err(), "disk");
    assert!(library.items().is_empty());
    assert!(library.update_text("fresh", "n", "p".into()).is_err());
    assert_eq!(library.delete("fresh").unwrap_err(), "未找到该生成模板，请刷新后重试");
    assert!(validate_name("  ").is_err());
    assert!(validate_name("海报").is_ok());
    let now = std::time::SystemTime::now()
        .duration_since(std::time::UNIX_EPOCH)
        .unwrap()
        .as_millis() as u64;
    let read = now_millis().unwrap();
    assert!(read >= now && read < now + 60_000);
}

#[test]
fn actions_are_taken_on_the_client() {
    let mut c = signed_in();
    let here = TextSet::new();
    let library = Library::load("/templates", None);
    let destinations =
        Destinations { canvas: None, canvases: Vec::new(), clip: None, clips: Vec::new() };
    let surroundings = Surroundings {
        present: &here,
        clip_open: false,
        canvas_known: false,
        destinations: &destinations,
        library: &library,
        team_name: "",
        invite: "",
    };
    let steps = act(&mut c, &surroundings, "personal-register-canvas", r#"{"path":"/c.png","name":"图"}"#);
    assert_eq!(jobs(&steps), vec!["personal"]);
    match &steps[0] {
        Step::Job(_, req) => {
            assert_eq!(req.path, "local:library-register");
            assert!(req.body.text_is("path", "/c.png"));
            assert!(req.body.text_is("name", "图"));
        }
        _ => unreachable!(),
    }
    c.auth.password = "typed".into();
    let steps = act(&mut c, &surroundings, "auth-close", "");
    assert!(matches!(&steps[..], [Step::Error(e), Step::Notice(n)] if e.is_empty() && n.is_empty()));
    assert!(c.auth.password.is_empty());
    c.studio.form.error = "请先登录".into();
    let steps = act(&mut c, &surroundings, "navigate", "0");
    assert!(matches!(&steps[0], Step::Error(e) if e.is_empty()), "a message about the identity");
    c.studio.references = vec![doc(
        r#"{"client_id":"ref-1","kind":"image","status":"missing","missing":true}"#,
    )];
    let picked = present(&["/new.png"]);
    let surroundings = Surroundings { present: &picked, ..surroundings };
    let steps = act(
        &mut c,
        &surroundings,
        "reference-replace",
        r#"{"client_id":"ref-1","path":"/new.png"}"#,
    );
    assert_eq!(jobs(&steps), vec!["reference:ref-1"]);
    let steps = act(&mut c, &surroundings, "canvas-drop-batch", r#"["/new.png"]"#);
    assert!(steps.is_empty());
    assert!(c.transfers.open);
    let steps = act(&mut c, &surroundings, "canvas-drop-batch", "not a list");
    assert!(matches!(&steps[..], [Step::Error(m)] if m == "拖入的素材无效，请重新选择"));
}

#[test]
fn late_jobs_are_left_alone() {
    let mut c = signed_in();
    let nothing = TextSet::new();
    let sizes = Vec::new();
    let world = World { present: &nothing, sizes: &sizes };
    let epoch = c.queue.epoch;
    let tasks = || JobEnd::Answered(doc(r#"{"items":[{"id":"a","status":"running"}]}"#));
    let (steps, next) = poll(&mut c, "tasks", epoch + 1, tasks(), &world);
    assert!(steps.is_empty() && !next);
    assert!(c.tasks.tasks.is_empty());
    let (_, next) = poll(&mut c, "tasks", epoch, tasks(), &world);
    assert!(next);
    assert_eq!(c.tasks.tasks.len(), 1);
}

#[test]
fn failed_jobs_are_told_and_undone() {
    let mut c = signed_in();
    let nothing = TextSet::new();
    let sizes = Vec::new();
    let world = World { present: &nothing, sizes: &sizes };
    c.studio.references = vec![
        doc(r#"{"client_id":"a","kind":"image","status":"ready"}"#),
        doc(r#"{"client_id":"b","kind":"image","status":"uploading"}"#),
    ];
    let epoch = c.queue.epoch;
    let end = JobEnd::Failed(refused(500, &doc(r#"{"error":{"message":"断开"}}"#)));
    let (steps, next) = poll(&mut c, "reference:b", epoch, end, &world);
    assert!(next);
    assert!(c.studio.references[1].text_is("status", "failed"));
    assert!(c.studio.references[1].text_is("error", "断开"));
    assert!(matches!(steps.last(), Some(Step::Error(m)) if m == "断开"));

    let end = JobEnd::Failed(refused(409, &doc(r#"{"error":{"code":"GENERATION_ASSET_GONE"}}"#)));
    c.studio.form.error = String::new();
    let (steps, _) = poll(&mut c, "quote", epoch, end, &world);
    assert!(matches!(&steps[..], [Step::Draw(Panel::References), Step::RefreshQuote]));
    assert!(c.studio.form.error.starts_with("2项参考素材仍需处理："));
    assert!(c.studio.references[0].text_is("status", "expired"));
    assert!(c.studio.references[1].text_is("status", "failed"));

    let end = JobEnd::Failed(refused(500, &Json::Null));
    c.studio.form.error = "先前的错误".into();
    let (steps, next) = poll(&mut c, "tasks", epoch, end, &world);
    assert!(steps.is_empty() && next, "a refresh stays quiet behind another error");

    let end = JobEnd::Failed(refused(401, &Json::Null));
    let (steps, next) = poll(&mut c, "tasks", epoch, end, &world);
    assert!(!next);
    assert!(!c.studio.signed_in && c.auth.open);
    assert!(matches!(steps.last(), Some(Step::Error(m)) if m == "登录状态已失效，请重新登录"));
    assert_shows_the_end(&steps);
}

#[test]
fn previews_are_opened_by_their_source() {
    let mut c = signed_in();
    c.personal.assets = vec![
        doc(r#"{"id":"a","name":"图","kind":"image","path":"/a.png","available":true}"#),
        doc(r#"{"id":"c","name":"图","kind":"image","path":"/a.png","available":false}"#),
    ];
    let here = present(&["/a.png"]);
    let sizes = vec!["1.0 MB".to_owned(), "1.0 MB".to_owned()];
    let open = |c: &mut Client, source: &str, id: &str| {
        open_media_preview(
            &mut c.preview,
            &mut c.tasks,
            &mut c.picker,
            &c.team,
            &c.studio.references,
            &c.personal.assets,
            &sizes,
            &here,
            source,
            id,
        )
    };
    assert!(open(&mut c, "personal", "a").is_empty());
    assert!(c.preview.open && c.preview.item.ready);
    assert_eq!((c.preview.source.as_str(), c.preview.item.id.as_str()), ("personal", "a"));
    assert!(open(&mut c, "personal", "c").is_empty());
    assert!(!c.preview.item.ready);
    assert_eq!(c.preview.error, "本机文件已移动或丢失");
    let told = |steps: Vec<Step>| match &steps[..] {
        [Step::Error(message)] => message.clone(),
        _ => unreachable!(),
    };
    assert_eq!(told(open(&mut c, "personal", "b")), "未找到该个人素材，请刷新后重试");
    assert_eq!(told(open(&mut c, "asset", "b")), "未找到该团队素材，请刷新后重试");
    assert_eq!(told(open(&mut c, "reference", "b")), "未找到该参考素材，请刷新后重试");
    assert_eq!(told(open(&mut c, "task", "b")), "未找到该生成结果，请刷新后重试");
    assert!(open(&mut c, "elsewhere", "a").is_empty());
}

#[test]
fn saved_templates_close_the_editor() {
    let mut studio = new_studio();
    let steps = template_settled(&mut studio, "template-save-current", "", Ok("t1".into()));
    assert!(matches!(
        &steps[..],
        [Step::CloseEditor, Step::Notice(n), Step::Draw(Panel::Templates)] if n == "模板已保存"
    ));
    assert_eq!(studio.template.id, "t1");
    let steps = template_settled(&mut studio, "template-delete", "t1", Ok("t1".into()));
    assert!(matches!(&steps[0], Step::Notice(n) if n == "模板已删除"));
    assert!(studio.template.id.is_empty());
    let steps = template_settled(&mut studio, "template-save", "t1", Err("磁盘已满".into()));
    assert!(matches!(&steps[..], [Step::Error(e)] if e == "磁盘已满"));
}
