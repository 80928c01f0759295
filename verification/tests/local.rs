use concat::collections::TextSet;
use concat::format::{colour_of, hex_of, hex_with_alpha, when_phrase};
use concat::generation_templates::{copy_templates, Library, TemplateReference};
use concat::json::Json;
use concat::panes::export::{unique_export_path, ActiveExport, ExportPane};

#[test]
fn colours_round_trip() {
    let lime = colour_of("#cbf53f");
    assert_eq!(hex_of(lime), "#cbf53f");
    assert_eq!(hex_with_alpha(lime), "#cbf53f");
    assert_eq!(hex_with_alpha(colour_of("")), "");
    assert_eq!(hex_with_alpha(colour_of("#000000cc")), "#000000cc");
}

#[test]
fn phrases_are_coarse() {
    let now = std::time::SystemTime::now()
        .duration_since(std::time::UNIX_EPOCH)
        .map(|elapsed| elapsed.as_millis() as u64)
        .unwrap_or(0);
    assert_eq!(when_phrase(now), "just now");
    assert_eq!(when_phrase(now - 86_400_000 - 1000), "yesterday");
    assert_eq!(when_phrase(now - 3 * 86_400_000), "3 days ago");
}

#[test]
fn crud_round_trip_preserves_parameters_and_references() {
    let mut library = Library::load("/templates", None);
    let id = library
        .save_current(
            None,
            "海报",
            "一张海报".into(),
            0,
            "image-model".into(),
            Json::from_members(vec![
                ("quality".into(), Json::from_text("high")),
                ("size".into(), Json::from_text("1024x1024")),
            ]),
            vec![TemplateReference {
                path: "/templates/reference.png".into(),
                name: "参考图".into(),
                kind: "image".into(),
                client_id: String::new(),
                source_id: String::new(),
            }],
        )
        .unwrap();
    library.settle(Ok(())).unwrap();
    library.update_text(&id, "新海报", "更新提示词".into()).unwrap();
    library.settle(Ok(())).unwrap();
    let reloaded = Library::load("/templates", Some(copy_templates(library.items())));
    let item = reloaded.get(&id).unwrap();
    assert_eq!(item.name, "新海报");
    assert_eq!(item.prompt, "更新提示词");
    assert!(item.parameters.text_is("size", "1024x1024"));
    assert_eq!(item.references.len(), 1);
    library.delete(&id).unwrap();
    library.settle(Ok(())).unwrap();
    assert!(library.items().is_empty());
}

#[test]
fn late_completion_cannot_claim_a_new_job() {
    let mut pane = ExportPane::new("/out".into());
    pane.active_job = Some(ActiveExport {
        id: 2,
        to_library: true,
        name: "new".into(),
        output: "new.mp4".into(),
    });
    assert!(pane.take_finished_job(1).is_none());
    assert_eq!(pane.take_finished_job(2).unwrap().name, "new");
    assert!(pane.take_finished_job(2).is_none());
}

#[test]
fn existing_export_names_are_preserved() {
    let mut taken = TextSet::new();
    taken.insert("/out/film.mp4");
    taken.insert("/out/film (2).mp4");
    let (chosen, renamed) = unique_export_path("/out/film.mp4", &taken).unwrap();
    assert!(renamed);
    assert_eq!(chosen, "/out/film (3).mp4");
}
