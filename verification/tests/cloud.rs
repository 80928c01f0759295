use concat::cloud::auth::{
    auth_request, auth_return_target, navigation_decision, NavigationDecision,
};
use concat::cloud::catalog::{
    option_index, parameter_default_index, parameter_label, parameter_value, stable_model_index,
};
use concat::cloud::configuration::server_task_snapshot;
use concat::cloud::export_copy::{
    copy_export_call, copy_unique_export, next_export, CopyEnd, ExportCopyJob,
};
use concat::cloud::fresh::{new_personal, new_picker, new_team};
use concat::cloud::imports::{
    cancel_pending_imports, enqueue_pending_import, resume_pending_imports,
};
use concat::cloud::intents::enqueue_personal_reference;
use concat::cloud::mentions::{
    invalid_reference_prompt, mention_start, rewrite_media_mentions, rewrite_mentions,
};
use concat::cloud::personal::personal_drop_plan;
use concat::cloud::picker::{
    picker_download_request, set_picker_batch_path, PickerBatch, PickerSelection,
};
use concat::cloud::references::{
    accepts_reference, has_reference_path, reference_kind, reference_number,
    validate_configuration_references,
};
use concat::cloud::requests::{
    can_start_request, configured_api_url, is_background_job, is_cloud_identity_error, request,
    request_requires_auth, should_clear_identity_error_for_target, should_surface_job_error,
    DEFAULT_API_URL,
};
use concat::cloud::steps::ExportItem;
use concat::cloud::tasks::{
    selected_task_id, selected_task_index, task_item, task_reference_source,
};
use concat::cloud::teams::accept_asset_list;
use concat::collections::TextSet;
use concat::generation_templates::TemplateReference;
use concat::json::{Json, Number};

fn convert(value: &serde_json::Value) -> Json {
    match value {
        serde_json::Value::Null => Json::Null,
        serde_json::Value::Bool(b) => Json::Bool(*b),
        serde_json::Value::Number(n) => Json::Number(if let Some(n) = n.as_u64() {
            Number::Unsigned(n)
        } else if let Some(n) = n.as_i64() {
            Number::Negative(n)
        } else {
            Number::Float(n.to_string())
        }),
        serde_json::Value::String(s) => Json::Text(s.clone()),
        serde_json::Value::Array(v) => Json::Array(v.iter().map(convert).collect()),
        serde_json::Value::Object(v) => {
            Json::Object(v.iter().map(|(key, value)| (key.clone(), convert(value))).collect())
        }
    }
}

/// The document that a text holds.
fn doc(source: &str) -> Json {
    let value: serde_json::Value = serde_json::from_str(source).unwrap();
    convert(&value)
}

fn text(s: &str) -> Json {
    Json::from_text(s)
}

#[test]
fn repeat_export_keeps_every_existing_file_and_uses_display_name() {
    let mut taken = TextSet::new();
    for name in ["产品正面.png", "产品正面-id.png", "产品正面-id-1.png"] {
        taken.insert(&format!("/out/{name}"));
    }
    let exported = copy_unique_export("/out/source.png", "/out", "产品正面", "id", &taken).unwrap();
    assert_eq!(exported, "/out/产品正面-id-2.png");
    taken.insert(&exported);
    let another = copy_unique_export("/out/source.png", "/out", "产品正面", "id", &taken).unwrap();
    assert_eq!(another, "/out/产品正面-id-3.png");
}

#[test]
fn batch_copy_reports_partial_result_for_retry_without_recopying_completed_item() {
    let item = |id: &str, source: &str| ExportItem {
        id: id.into(),
        source: source.into(),
        name: id.into(),
    };
    let mut job = ExportCopyJob {
        items: vec![item("first", "/out/source.png"), item("second", "/out/missing.png")],
        folder: "/out".into(),
        completed: TextSet::new(),
        running: true,
        bytes_total: 5,
    };
    assert_eq!(next_export(&job, 0), Some(0));
    assert_eq!(next_export(&job, 1), Some(1));
    let partial = copy_export_call(
        &vec!["first".to_owned()],
        &CopyEnd::Failed("second".into(), "No such file".into()),
    );
    assert!(partial.at("completed").same(&doc(r#"["first"]"#)));
    assert!(partial.at("error").as_text().is_some());
    job.completed.insert("first");
    assert_eq!(next_export(&job, 0), Some(1));
    assert_eq!(next_export(&job, 2), None);
    let retry = copy_export_call(&vec!["second".to_owned()], &CopyEnd::All);
    assert!(retry.at("completed").same(&doc(r#"["second"]"#)));
    assert!(retry.get("error").is_none());
}

#[test]
fn server_task_refill_recovers_known_input_and_keeps_missing_reference_slots() {
    let plain = doc(
        r#"{
            "kind":"image",
            "model":"image-model",
            "request":{"model":"image-model","prompt":"studio","size":"1024x1024","quality":"high"}
        }"#,
    );
    let restored = server_task_snapshot(&plain).unwrap();
    assert_eq!(restored.prompt, "studio");
    assert!(restored.parameters.text_is("size", "1024x1024"));

    let referenced = doc(
        r#"{
            "kind":"video",
            "model":"video-model",
            "request":{"model":"video-model","prompt":"motion","reference_asset_ids":["gasset-1"]}
        }"#,
    );
    let restored = server_task_snapshot(&referenced).unwrap();
    assert_eq!(restored.prompt, "motion");
    assert_eq!(restored.references.len(), 1);
    assert_eq!(restored.references[0].source_id, "gasset-1");
    assert_eq!(restored.references[0].kind, "unknown");
    assert!(restored.references[0].path.is_empty());

    let incomplete = doc(
        r#"{
            "kind":"video",
            "model":"video-model",
            "request":{
                "model":"video-model",
                "prompt":"motion",
                "resolution":"720p",
                "duration":5,
                "aspect_ratio":"16:9"
            }
        }"#,
    );
    let restored = server_task_snapshot(&incomplete).unwrap();
    assert_eq!(restored.prompt, "motion");
    assert_eq!(restored.parameters.at("duration").as_u64(), Some(5));
    assert!(restored.parameters.get("generate_audio").is_none());
}

#[test]
fn refill_reference_validation_rejects_duplicates_kind_limits_and_audio_only() {
    let model = doc(
        r#"{"parameters":{"reference_asset_ids":{
            "max_items":9,
            "accepted_media":["image/*","video/*","audio/*"],
            "max_per_kind":{"image":9,"video":1,"audio":3}
        }}}"#,
    );
    let reference = |path: &str, kind: &str| TemplateReference {
        path: path.into(),
        name: path.into(),
        kind: kind.into(),
        client_id: String::new(),
        source_id: String::new(),
    };
    let duplicate = vec![reference("/tmp/a.png", "image"), reference("/tmp/a.png", "image")];
    assert!(validate_configuration_references(&model, &duplicate, "历史任务")
        .unwrap_err()
        .contains("重复"));
    let videos = vec![reference("/tmp/a.mp4", "video"), reference("/tmp/b.mp4", "video")];
    assert_eq!(
        validate_configuration_references(&model, &videos, "历史任务").unwrap_err(),
        "历史任务中的视频参考最多 1 项"
    );
    assert_eq!(
        validate_configuration_references(&model, &vec![reference("/tmp/a.wav", "audio")], "历史任务")
            .unwrap_err(),
        "历史任务中的参考音频需要搭配至少一张图片或一段视频"
    );
}

#[test]
fn selected_task_tracks_id_across_refresh_and_closes_when_missing() {
    let old = vec![doc(r#"{"id":"a"}"#), doc(r#"{"id":"b"}"#)];
    let reordered = vec![doc(r#"{"id":"b"}"#), doc(r#"{"id":"a"}"#)];
    let selected = selected_task_id(&old, 1).unwrap();
    assert_eq!(selected, "b");
    assert_eq!(selected_task_index(&reordered, &selected), Some(0));
    assert_eq!(selected_task_index(&vec![doc(r#"{"id":"a"}"#)], &selected), None);
}

#[test]
fn expired_task_can_reference_real_local_result_but_missing_result_is_rejected() {
    let expired = doc(r#"{"kind":"image","status":"expired","outputs":[]}"#);
    assert_eq!(
        task_reference_source(&expired, Some("/tmp/result.png".into())).unwrap(),
        Some("/tmp/result.png".to_owned())
    );
    assert!(task_reference_source(&expired, None).unwrap_err().contains("本机结果文件不可用"));
    let succeeded_without_output = doc(r#"{"kind":"image","status":"succeeded","outputs":[]}"#);
    assert_eq!(
        task_reference_source(&succeeded_without_output, None).unwrap_err(),
        "该生成结果文件不可用，请刷新后重试"
    );
}

#[test]
fn result_reference_path_is_idempotent() {
    let references = vec![doc(r#"{"local_path":"/tmp/result.png"}"#)];
    assert!(has_reference_path(&references, "/tmp/result.png"));
    assert!(!has_reference_path(&references, "/tmp/other.png"));
}

#[test]
fn personal_folder_drop_uses_selected_group_only_when_source_is_selected() {
    let mut page = new_personal();
    page.assets = vec![
        doc(r#"{"id":"a","folder_id":null,"trashed":false}"#),
        doc(r#"{"id":"b","folder_id":"first","trashed":false}"#),
        doc(r#"{"id":"c","folder_id":"second","trashed":false}"#),
    ];
    page.folders = vec![doc(r#"{"id":"first"}"#), doc(r#"{"id":"second"}"#)];
    page.selected.insert("a");
    page.selected.insert("b");
    assert_eq!(
        personal_drop_plan(&page, "a", 2),
        Some((vec!["a".into(), "b".into()], "first".into()))
    );
    assert_eq!(personal_drop_plan(&page, "c", 2), Some((vec!["c".into()], "first".into())));
    assert_eq!(personal_drop_plan(&page, "c", 0), None);
    assert_eq!(personal_drop_plan(&page, "c", 1), Some((vec!["c".into()], "".into())));
    assert_eq!(personal_drop_plan(&page, "c", 3), None);
    page.assets[2] = doc(r#"{"id":"c","folder_id":"second","trashed":true}"#);
    assert_eq!(personal_drop_plan(&page, "c", 2), None);
    assert_eq!(personal_drop_plan(&page, "missing", 2), None);
}

#[test]
fn ordinary_launch_uses_online_service_and_development_requires_override() {
    assert_eq!(configured_api_url(None), DEFAULT_API_URL);
    assert_eq!(configured_api_url(Some("invalid")), DEFAULT_API_URL);
    assert_eq!(configured_api_url(Some("http://remote.example.com")), DEFAULT_API_URL);
    assert_eq!(configured_api_url(Some("http://127.0.0.1:8797")), "http://127.0.0.1:8797");
}

#[test]
fn signed_out_navigation_keeps_the_current_page_and_returns_after_login() {
    assert_eq!(
        navigation_decision(1, 2, false),
        NavigationDecision::Authenticate { stay: 1, target: 2 }
    );
    assert_eq!(navigation_decision(1, 5, false), NavigationDecision::Open(5));
    assert_eq!(navigation_decision(1, 3, true), NavigationDecision::Open(3));
    assert_eq!(auth_return_target(Some(2), 1), 2);
    assert_eq!(auth_return_target(None, 1), 1);
}

#[test]
fn refresh_jobs_do_not_present_as_foreground_work() {
    for name in [
        "tasks",
        "quote",
        "wallet",
        "capabilities",
        "models",
        "teams",
        "assets",
        "local-cache:gen_1",
        "personal-cache",
    ] {
        assert!(is_background_job(name), "{name}");
    }
    for name in ["generate", "local", "asset-change", "personal"] {
        assert!(!is_background_job(name), "{name}");
    }
}

#[test]
fn signed_out_cloud_requests_stop_before_authenticated_endpoints() {
    let models = request("GET", "/api/generation/models", Json::Null);
    let assets = request("GET", "/api/teams/team-1/assets", Json::Null);
    let capabilities = request("GET", "/api/capabilities", Json::Null);
    let login = request("POST", "/api/auth/login", doc("{}"));
    let personal = request("POST", "local:library-list", Json::Null);

    assert!(request_requires_auth(&models));
    assert!(request_requires_auth(&assets));
    assert!(!request_requires_auth(&capabilities));
    assert!(!request_requires_auth(&login));
    assert!(!request_requires_auth(&personal));
    assert!(!can_start_request(false, &models));
    assert!(can_start_request(true, &models));
}

#[test]
fn stale_unauthenticated_errors_do_not_escape_to_local_workflows() {
    assert!(!should_surface_job_error(false, false, true, "models", true));
    assert!(!should_surface_job_error(false, true, false, "assets", true));
    assert!(should_surface_job_error(false, true, false, "login", true));
    assert!(should_surface_job_error(false, false, true, "personal", false));
    assert!(is_cloud_identity_error("请先登录"));
    assert!(is_cloud_identity_error("登录状态已失效，请重新登录"));
    assert!(!is_cloud_identity_error("无法读取导入素材"));
    assert!(should_clear_identity_error_for_target(0, "请先登录"));
    assert!(should_clear_identity_error_for_target(5, "请先登录"));
    assert!(!should_clear_identity_error_for_target(1, "请先登录"));
    assert!(!should_clear_identity_error_for_target(0, "无法读取导入素材"));
}

#[test]
fn pending_project_imports_dedupe_cancel_and_resume_once() {
    let first = "/tmp/first.png".to_owned();
    let second = "/tmp/second.mp4".to_owned();
    let mut pending = Vec::new();
    assert!(enqueue_pending_import(&mut pending, first.clone()));
    assert!(!enqueue_pending_import(&mut pending, first.clone()));
    assert!(enqueue_pending_import(&mut pending, second.clone()));
    assert_eq!(pending.len(), 2);

    let resumed = resume_pending_imports(&mut pending);
    assert_eq!(resumed, vec![first.clone(), second.clone()]);
    assert!(pending.is_empty());
    assert!(resume_pending_imports(&mut pending).is_empty());

    assert!(enqueue_pending_import(&mut pending, first));
    assert!(enqueue_pending_import(&mut pending, second));
    assert_eq!(cancel_pending_imports(&mut pending), 2);
    assert!(pending.is_empty());
}

#[test]
fn signed_out_reference_intents_keep_multiple_unique_files() {
    let mut pending = Vec::new();
    assert!(enqueue_personal_reference(&mut pending, "/tmp/first.png".into(), "first.png".into()));
    assert!(enqueue_personal_reference(
        &mut pending,
        "/tmp/second.png".into(),
        "second.png".into()
    ));
    assert!(!enqueue_personal_reference(
        &mut pending,
        "/tmp/first.png".into(),
        "duplicate.png".into()
    ));
    assert_eq!(pending.len(), 2);
    assert_eq!(pending.remove(0).1, "first.png");
    assert_eq!(pending.remove(0).1, "second.png");
}

#[test]
fn email_code_requests_are_bound_to_email_and_keep_leading_zeroes() {
    let (name, req) = auth_request(3, " User@Example.com ", "", "", " 001234 ").unwrap();
    assert_eq!(name, "verify-email");
    assert!(req.body.same(&doc(r#"{"email":"user@example.com","token":"001234"}"#)));
    let (_, req) =
        auth_request(4, "user@example.com", "new-password", "new-password", "001234").unwrap();
    assert_eq!(req.path, "/api/auth/reset-password");
    assert!(req.body.text_is("email", "user@example.com"));
    assert!(req.body.text_is("password", "new-password"));
    assert!(auth_request(3, "user@example.com", "", "", "12345").is_err());
}

#[test]
fn account_forms_reject_mismatched_passwords_and_invalid_email() {
    assert!(auth_request(1, "user@example.com", "long-password", "other-password", "").is_err());
    assert!(auth_request(1, "user@example.com", "short", "short", "").is_err());
    assert!(auth_request(2, "wrong address", "", "", "").is_err());
    assert!(auth_request(0, "user@example.com", "existing", "", "").is_ok());
    let (name, req) = auth_request(2, "user@example.com", "", "", "").unwrap();
    assert_eq!(name, "password-reset-request");
    assert!(req.body.same(&doc(r#"{"email":"user@example.com"}"#)));
}

#[test]
fn friendly_image_labels_keep_exact_catalog_request_values() {
    let model = doc(
        r#"{"parameters": {
            "size": {"default":"auto", "values":["auto", "1024x1024", "1536x1024", "1024x1536"]},
            "quality": {"default":"high", "values":["high"]}
        }}"#,
    );
    for (index, raw, label) in [
        (0, "auto", "自动"),
        (1, "1024x1024", "1:1 · 1024 × 1024"),
        (2, "1536x1024", "3:2 · 1536 × 1024"),
        (3, "1024x1536", "2:3 · 1024 × 1536"),
    ] {
        let value = parameter_value(&model, "size", index);
        assert!(value.same(&text(raw)));
        assert_eq!(parameter_label("size", &value), label);
    }
    assert!(parameter_value(&model, "quality", 0).same(&text("high")));
    assert_eq!(parameter_label("quality", &parameter_value(&model, "quality", 0)), "高清");
    assert_eq!(parameter_default_index(&model, "quality"), 0);
}

#[test]
fn video_parameters_keep_numbers_and_reject_non_catalog_options() {
    let model = doc(
        r#"{"parameters": {
            "duration": {"default":5,"values":[4,5,6,7,8,9,10,11,12,13,14,15]},
            "resolution": {"values":["720p"]},
            "aspect_ratio": {"values":["16:9","9:16","1:1"]}
        }}"#,
    );
    assert!(parameter_value(&model, "duration", 11).same(&Json::from_u64(15)));
    assert_eq!(parameter_label("duration", &parameter_value(&model, "duration", 11)), "15 秒");
    assert_eq!(parameter_default_index(&model, "duration"), 1);
    assert!(parameter_value(&model, "resolution", 0).same(&text("720p")));
    assert!(parameter_value(&model, "resolution", 1).is_null());
    assert!(parameter_value(&model, "duration", -1).is_null());
    assert!(parameter_value(&model, "aspect_ratio", 1).same(&text("9:16")));
}

#[test]
fn model_catalog_reorder_uses_stable_id_and_keeps_raw_parameter_value() {
    let model = |id: &str| {
        doc(&format!(
            r#"{{"id":"{id}","kind":"image","parameters":{{"size":{{"default":"1:1","values":["1:1","3:2"]}}}}}}"#
        ))
    };
    let reordered = vec![model("image-b"), model("image-a")];
    assert_eq!(stable_model_index(&reordered, 0, "image-a"), Some(1));
    let (index, adjusted) = option_index(&reordered[1], "size", Some(&text("3:2")));
    assert_eq!(index, 1);
    assert!(!adjusted);
    let (fallback, adjusted) = option_index(&reordered[1], "size", Some(&text("9:16")));
    assert_eq!(fallback, 0);
    assert!(adjusted);
}

#[test]
fn image_and_video_catalog_indexes_are_kept_in_separate_namespaces() {
    let models = vec![
        doc(r#"{"id":"image-a","kind":"image"}"#),
        doc(r#"{"id":"video-a","kind":"video"}"#),
        doc(r#"{"id":"image-b","kind":"image"}"#),
    ];
    assert_eq!(stable_model_index(&models, 0, "image-b"), Some(1));
    assert_eq!(stable_model_index(&models, 1, "video-a"), Some(0));
    assert_eq!(stable_model_index(&models, 1, "image-b"), None);
}

#[test]
fn failed_task_exposes_raw_failure_state_and_a_fallback_reason() {
    let item = task_item(&doc(r#"{"id":"task-1","kind":"image","status":"failed"}"#));
    assert!(item.failed);
    assert_eq!(item.detail.as_str(), "未返回失败原因");
}

#[test]
fn deleted_and_out_of_range_references_block_generation() {
    assert!(invalid_reference_prompt("保持[已移除参考图片]的主体", 2));
    assert!(invalid_reference_prompt("@[图片3]", 2));
    assert!(invalid_reference_prompt("@[图片0]", 2));
    assert!(invalid_reference_prompt("@[图片1]", 0));
    assert!(!invalid_reference_prompt("@[图片2]中的衣服与@[图片1]中的背景", 2));
}

#[test]
fn provider_prompt_keeps_reference_numbers_and_chinese_context() {
    let result = rewrite_mentions("沿用@[图片2]的衣服，保持@[图片1]的脸", |n| {
        format!("第{n}张参考图片")
    });
    assert_eq!(result, "沿用第2张参考图片的衣服，保持第1张参考图片的脸");
}

#[test]
fn mixed_reference_numbers_follow_each_media_array() {
    let references = vec![
        doc(r#"{"kind":"image"}"#),
        doc(r#"{"kind":"video"}"#),
        doc(r#"{"kind":"image"}"#),
        doc(r#"{"kind":"audio"}"#),
        doc(r#"{"kind":"video"}"#),
    ];
    let numbers: Vec<_> =
        (0..references.len()).map(|index| reference_number(&references, index)).collect();
    assert_eq!(numbers, [1, 1, 2, 1, 2]);
    let prompt = "用@[图片2]主体，按@[视频2]运动，跟随@[音频1]节奏";
    assert_eq!(
        rewrite_media_mentions(prompt, |kind: &str, n: usize| format!("{kind}{n}")),
        "用图片2主体，按视频2运动，跟随音频1节奏"
    );
    let removed = rewrite_media_mentions(prompt, |kind: &str, n: usize| {
        if kind == "视频" {
            format!("@[{kind}{}]", n - 1)
        } else {
            format!("@[{kind}{n}]")
        }
    });
    assert_eq!(removed, "用@[图片2]主体，按@[视频1]运动，跟随@[音频1]节奏");
    assert_eq!(
        rewrite_media_mentions("@[视频x] @[音频] @hello", |_: &str, _: usize| panic!(
            "invalid token"
        )),
        "@[视频x] @[音频] @hello"
    );
}

#[test]
fn reference_types_follow_model_catalog() {
    let image = doc(r#"{"parameters":{"reference_asset_ids":{"accepted_media":["image/*"]}}}"#);
    let video = doc(
        r#"{"parameters":{"reference_asset_ids":{"accepted_media":["image/*","video/*","audio/*"]}}}"#,
    );
    for (path, kind) in [
        ("A.PNG", "image"),
        ("clip.MOV", "video"),
        ("beat.wav", "audio"),
        ("movie.webm", "unsupported"),
    ] {
        assert_eq!(reference_kind(path), kind);
        assert_eq!(accepts_reference(&image, kind), kind == "image");
        assert_eq!(accepts_reference(&video, kind), kind != "unsupported");
    }
}

#[test]
fn removing_reference_does_not_cascade_number_replacements() {
    let result = rewrite_mentions("@[图片1] @[图片2] @[图片3] @[图片10]", |n| {
        if n == 1 {
            "[已移除参考图片]".into()
        } else {
            format!("@[图片{}]", n - 1)
        }
    });
    assert_eq!(result, "[已移除参考图片] @[图片1] @[图片2] @[图片9]");
}

#[test]
fn missing_middle_reference_keeps_kind_number_for_later_mentions() {
    let references = vec![
        doc(r#"{"kind":"image"}"#),
        doc(r#"{"kind":"image", "status":"missing"}"#),
        doc(r#"{"kind":"image"}"#),
    ];
    let numbers: Vec<_> =
        (0..references.len()).map(|index| reference_number(&references, index)).collect();
    assert_eq!(numbers, [1, 2, 3]);
    assert_eq!(
        rewrite_mentions("主体@[图片2]，背景@[图片3]", |number| format!("第{number}张参考图片")),
        "主体第2张参考图片，背景第3张参考图片"
    );
}

#[test]
fn mention_detection_uses_utf8_cursor_and_ignores_complete_tokens() {
    let prompt = "参考@[图片1]，搭配@图 后文";
    assert_eq!(
        mention_start(prompt, "参考@[图片1]，搭配@图".len()),
        Some("参考@[图片1]，搭配".len())
    );
    assert_eq!(mention_start(prompt, "参考@[图片1]".len()), None);
    assert_eq!(mention_start(prompt, prompt.len()), None);
    assert_eq!(mention_start(prompt, 1), None);
}

#[test]
fn picker_batch_request_keeps_confirmed_team_and_destination() {
    let item = PickerSelection {
        id: "asset_a".into(),
        name: "original.png".into(),
        kind: "image".into(),
        local_path: String::new(),
        download_endpoint: "/api/teams/original/assets/asset_a/download".into(),
        download_path: "/tmp/original/asset_a.png".into(),
    };
    let mut picker = new_picker();
    picker.batch = Some(PickerBatch { purpose: "reference".into(), items: vec![item] });
    let req = picker_download_request(&picker.batch.as_ref().unwrap().items[0]).unwrap();
    assert!(req.body.text_is("endpoint", "/api/teams/original/assets/asset_a/download"));
    assert!(req.body.text_is("path", "/tmp/original/asset_a.png"));
    assert!(req.body.text_is("intent", "picker-batch"));
}

#[test]
fn picker_batch_cache_hit_completes_matching_slot_without_reordering() {
    let make = |id: &str| PickerSelection {
        id: id.into(),
        name: format!("{id}.png"),
        kind: "image".into(),
        local_path: String::new(),
        download_endpoint: format!("/api/teams/t/assets/{id}/download"),
        download_path: format!("/tmp/{id}.png"),
    };
    let mut picker = new_picker();
    picker.batch = Some(PickerBatch {
        purpose: "reference".into(),
        items: vec![make("first"), make("second")],
    });
    assert!(set_picker_batch_path(&mut picker, "first", "/tmp/cached.png"));
    let items = &picker.batch.as_ref().unwrap().items;
    assert_eq!(items[0].id, "first");
    assert_eq!(items[0].local_path, "/tmp/cached.png");
    assert_eq!(items.iter().find(|item| item.local_path.is_empty()).unwrap().id, "second");
    assert!(!set_picker_batch_path(&mut picker, "unrelated", "/tmp/other.png"));
}

#[test]
fn team_asset_list_rejects_late_team_and_trash_responses() {
    let mut page = new_team();
    let current = "/api/teams/new/assets?trash=false";
    page.assets_context = current.into();
    for old in ["/api/teams/old/assets?trash=false", "/api/teams/new/assets?trash=true"] {
        let late = Json::from_members(vec![
            ("client_assets_context".into(), text(old)),
            ("items".into(), doc(r#"[{"id":"old-asset"}]"#)),
        ]);
        assert!(!accept_asset_list(&mut page, &late, current));
        assert!(page.assets.is_empty());
    }
    let fresh = Json::from_members(vec![
        ("client_assets_context".into(), text(current)),
        ("items".into(), doc(r#"[{"id":"new-asset"}]"#)),
    ]);
    assert!(accept_asset_list(&mut page, &fresh, current));
    assert!(page.assets[0].text_is("id", "new-asset"));
}
