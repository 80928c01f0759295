use concat::format::{
    bezier_parts, colour_of, frames_timecode, hex_of, parse_bezier, phrase_between, Bezier,
};
use concat::json::Json;
use concat::panes::canvas::adjustments::{adjustment_label, default_adjustment, AdjustmentEdit};
use concat::panes::canvas::codec::{decode, decode_png, encode_png, resized, thumbnail_of};
use concat::panes::canvas::edits::{shift_node, sibling_image};
use concat::panes::canvas::frame::{
    centre_on_canvas, checker_image, copy_tile, expand, normalize_mask_pixels,
    restrict_to_selection, Frame, Selection,
};
use concat::panes::canvas::history::HISTORY_ENTRY_LIMIT;
use concat::panes::canvas::messages::CanvasMsg;
use concat::panes::canvas::opening::{finish_export, prepare_import, CanvasStep, SaveReport};
use concat::panes::canvas::package::{
    accept_bitmap, check_document, check_manifest, check_manifest_size, export_name,
    library_export_name, project_name, remember_canvas_project, replace_package, save_name,
    sibling_temp, sorted_ids, Replacement, SaveTickets, RECENT_LIMIT,
};
use concat::panes::canvas::pane::{palette, CanvasPane};
use concat::panes::canvas::store::PixelStore;
use concat::panes::canvas::tree::{collect_pixels, Body, Document, LayerNode};
use concat::panes::export::{
    check_output_name, stage_label, unique_export_path, ExportMsg, ExportPane, ExportPhase,
    ExportStep, Fraction, Project, SheetFacts,
};
use concat::collections::TextSet;

fn open_pane() -> CanvasPane {
    let mut pane = CanvasPane::default();
    pane.open_image("/tmp/probe.png", Frame::transparent(8, 6));
    pane.saved_revision = pane.revision;
    pane
}

fn solid(width: u32, height: u32, rgba: [u8; 4]) -> Frame {
    Frame::from_rgba(width, height, rgba.repeat((width * height) as usize)).unwrap()
}

#[test]
fn pictures_of_other_formats_are_read() {
    let picture = image::RgbImage::from_fn(5, 3, |x, y| image::Rgb([x as u8, y as u8, 40]));
    for (name, format) in [
        ("a.bmp", image::ImageFormat::Bmp),
        ("a.webp", image::ImageFormat::WebP),
        ("a.jpg", image::ImageFormat::Jpeg),
    ] {
        let mut bytes = std::io::Cursor::new(Vec::new());
        image::DynamicImage::ImageRgb8(picture.clone()).write_to(&mut bytes, format).unwrap();
        let bytes = bytes.into_inner();
        let frame = decode(name, &bytes, None).ok().unwrap();
        assert_eq!((frame.width, frame.height), (5, 3));
        if name != "a.jpg" {
            assert_eq!(frame.pixel(4, 2), Some([4, 2, 40, 255]));
        }
        assert!(decode(name, &bytes, Some(4)).is_err(), "the device takes four pixels");
    }
    assert!(decode("a.bmp", &vec![1, 2, 3], None).is_err());
    assert!(decode("a.bmp", &Vec::new(), None).is_err());
}

#[test]
fn projects_have_small_pictures() {
    let small = thumbnail_of(solid(960, 640, [10, 20, 30, 255]));
    assert_eq!((small.width, small.height), (480, 320));
    assert_eq!(small.pixel(479, 319), Some([10, 20, 30, 255]));
    let grown = thumbnail_of(solid(2, 2, [7, 7, 7, 7]));
    assert_eq!((grown.width, grown.height), (480, 320));
}

#[test]
fn the_nearest_layer_follows_a_deleted_one() {
    let mut pane = CanvasPane::default();
    pane.open_image("/tmp/a.png", Frame::transparent(4, 4));
    let a = (1, pane.layer.unwrap());
    pane.agent_adjustment_add(1);
    pane.agent_layer_add();
    let b = (pane.active.unwrap(), pane.layer.unwrap());
    let nodes = &pane.document.as_ref().unwrap().children;
    assert_eq!(nodes.len(), 3);
    assert_eq!(sibling_image(nodes, None, 0), Some(a));
    assert_eq!(sibling_image(nodes, None, 1), Some(a), "one away, the other two");
    assert_eq!(sibling_image(nodes, None, 2), Some(b));
    assert_eq!(sibling_image(nodes, None, 9), Some(b));
    assert_eq!(sibling_image(&Vec::new(), None, 0), None);
}

#[test]
fn of_two_equally_near_layers_the_front_one_follows() {
    let mut pane = CanvasPane::default();
    pane.open_image("/tmp/a.png", Frame::transparent(4, 4));
    pane.agent_layer_add();
    let front = (pane.active.unwrap(), pane.layer.unwrap());
    let nodes = &pane.document.as_ref().unwrap().children;
    assert_eq!(sibling_image(nodes, None, 1), Some(front));
}

#[test]
fn the_wand_replaces_what_is_selected() {
    let mut pane = open_pane();
    let cover = |from: usize| Selection {
        width: 8,
        height: 6,
        coverage: (0..48).map(|i| if i >= from { 255 } else { 0 }).collect(),
    };
    pane.agent_select_all();
    pane.agent_wand(Some(cover(40)));
    assert_eq!(pane.selection.as_ref().unwrap().coverage, cover(40).coverage);
    pane.update(CanvasMsg::WandClick(Some(cover(20))));
    assert_eq!(pane.selection.as_ref().unwrap().coverage, cover(20).coverage);
    pane.update(CanvasMsg::WandClick(None));
    assert!(pane.selection.is_some(), "a click off the layer");
    pane.update(CanvasMsg::WandClick(Some(cover(48))));
    assert!(pane.selection.is_none(), "a run of nothing");
}

#[test]
fn colours_need_every_digit() {
    let mut pane = open_pane();
    pane.set_brush_hex("#0A141E");
    for text in ["+1+2+3", "#+1+2+3", "12345", "1234567", "#12345g", "##12345"] {
        pane.set_brush_hex(text);
        assert_eq!(pane.brush_hex(), "#0A141E");
    }
    pane.set_brush_hex(" 0a141f ");
    assert_eq!(pane.brush_hex(), "#0A141F");
    for text in ["#gggggg", "+1+2+3", "#12345", "#1234567", "#12345678g", "图图"] {
        assert_eq!(colour_of(text).alpha, 0);
        assert_eq!(hex_of(colour_of(text)), "#000000");
    }
    assert_eq!(hex_of(colour_of("0A141E")), "#0a141e");
    assert_eq!(colour_of("#01020304").alpha, 4);
}

#[test]
fn undone_and_redone_canvases_are_the_same() {
    let mut pane = open_pane();
    pane.agent_layer_add();
    pane.agent_layer_delete(1);
    let tree = pane.document.as_ref().unwrap().copy();
    let pixels = collect_pixels(&tree.children);
    let revision = pane.revision;
    pane.undo();
    assert_eq!(pane.document.as_ref().unwrap().children.len(), 2);
    pane.redo();
    assert!(pane.document.as_ref().unwrap().same_as(&tree));
    assert_eq!(collect_pixels(&pane.document.as_ref().unwrap().children), pixels);
    assert_eq!(pane.store.len(), 1);
    assert_eq!(pane.revision, revision);
}

#[test]
fn dropped_rows_are_last_in_their_group() {
    let mut pane = open_pane();
    pane.agent_layer_add();
    let first = pane.active.unwrap();
    pane.agent_layer_group();
    pane.agent_layer_drop(1, 0, true);
    pane.agent_layer_drop(2, 0, true);
    let rows = pane.agent_layers();
    assert!(rows[0].group);
    assert_eq!(rows[2].id, first, "the one that came before");
    assert_eq!(rows[1].depth, 1);
    let before = pane.document.as_ref().unwrap().copy();
    pane.agent_layer_drop(0, 9, true);
    assert!(pane.document.as_ref().unwrap().same_as(&before));
}

#[test]
fn documents_are_printed_by_name() {
    let document = Json::from_members(vec![
        ("b".into(), Json::from_text("\u{1}\"\\\u{8}\u{c}\r\t\u{7f}图")),
        ("a".into(), Json::from_members(vec![
            ("y".into(), Json::Null),
            ("x".into(), Json::from_u64(1)),
        ])),
    ]);
    let printed = document.print();
    let read: serde_json::Value = serde_json::from_str(&printed).unwrap();
    assert_eq!(printed, read.to_string());
    assert!(printed.starts_with(r#"{"a":{"x":1,"y":null},"b":"\u0001\"\\\b\f\r\t"#));
}

#[test]
fn written_pictures_are_read_back() {
    let frame = solid(3, 2, [9, 8, 7, 6]);
    let bytes = encode_png(&frame).unwrap();
    let (width, height, pixels) = decode_png(&bytes, None).unwrap();
    assert_eq!((width, height), (3, 2));
    assert_eq!(pixels, frame.pixels);
    assert!(decode_png(&bytes, Some(2)).unwrap_err().contains("2px texture limit"));
    assert!(decode_png(&vec![0; 9], None).is_err());
    assert!(encode_png(&Frame { width: 0, height: 0, pixels: Vec::new() }).is_err());
}

#[test]
fn pictures_are_scaled_to_the_canvas() {
    let scaled = resized(solid(2, 2, [10, 20, 30, 255]), (4, 3));
    assert_eq!((scaled.width, scaled.height), (4, 3));
    assert_eq!(scaled.pixels.len(), 48);
    assert_eq!(scaled.pixel(1, 1), Some([10, 20, 30, 255]));
    let kept = resized(solid(2, 2, [1, 2, 3, 4]), (2, 2));
    assert_eq!(kept.pixels, [1, 2, 3, 4].repeat(4));
    let incoming = prepare_import("/a.png".into(), Ok(solid(2, 2, [1, 2, 3, 4])), (4, 4));
    let picture = incoming.picture.ok().unwrap();
    assert_eq!((picture.whole.width, picture.fitted.width), (2, 4));
}

#[test]
fn scaling_keeps_even_and_alike_channels() {
    let even = resized(solid(640, 333, [201, 0, 17, 255]), (10, 7));
    assert_eq!(even.pixels, [201, 0, 17, 255].repeat(70));
    let grown = resized(solid(3, 5, [9, 128, 254, 1]), (61, 64));
    assert_eq!(grown.pixels, [9, 128, 254, 1].repeat(61 * 64));
    let mut bytes = Vec::new();
    for i in 0..40 * 30 {
        let grey = (i * 37 % 251) as u8;
        bytes.extend([grey, grey, (i % 7) as u8, 255]);
    }
    let scaled = resized(Frame::from_rgba(40, 30, bytes).unwrap(), (17, 11));
    assert!(scaled.pixels.chunks(4).all(|p| p[0] == p[1] && p[3] == 255));
    assert!(scaled.pixels.chunks(4).any(|p| p[0] != scaled.pixels[0]), "not all the same");
}

#[test]
fn small_pictures_show_what_is_where() {
    let mut bytes = Vec::new();
    for y in 0..640 {
        for x in 0..960 {
            bytes.extend([(x / 4) as u8, (y / 4) as u8, 0, 255]);
        }
    }
    let small = thumbnail_of(Frame::from_rgba(960, 640, bytes).unwrap());
    assert_eq!(small.pixel(0, 0), Some([0, 0, 0, 255]));
    assert_eq!(small.pixel(100, 50), Some([50, 25, 0, 255]));
    assert_eq!(small.pixel(478, 318), Some([239, 159, 0, 255]));
}

#[test]
fn bytes_become_colours() {
    assert_eq!(expand(&vec![7, 9], 1), vec![7, 7, 7, 255, 9, 9, 9, 255]);
    assert_eq!(expand(&vec![7, 9], 2), vec![7, 7, 7, 9]);
    assert_eq!(expand(&vec![1, 2, 3], 3), vec![1, 2, 3, 255]);
    assert_eq!(expand(&vec![1, 2, 3, 4], 4), vec![1, 2, 3, 4]);
}

#[test]
fn tiles_leave_the_rest_alone() {
    let from = vec![9; 300 * 4];
    let mut to = vec![0; 300 * 4];
    copy_tile(&from, &mut to, 300, 1, (1, 0));
    assert!(to[..256 * 4].iter().all(|&b| b == 0));
    assert!(to[256 * 4..].iter().all(|&b| b == 9));
}

#[test]
fn selections_clip_and_soften() {
    let base = solid(3, 1, [0, 0, 0, 0]);
    let mut painted = solid(3, 1, [200, 100, 50, 255]);
    let selection = Selection { width: 3, height: 1, coverage: vec![255, 0, 128] };
    restrict_to_selection(&mut painted, &base, &selection, &vec![(0, 0)]);
    assert_eq!(painted.pixel(0, 0), Some([200, 100, 50, 255]));
    assert_eq!(painted.pixel(1, 0), Some([0, 0, 0, 0]));
    let soft = painted.pixel(2, 0).unwrap();
    assert!(soft[3] > 100 && soft[3] < 155);
}

#[test]
fn masks_are_grey_and_opaque() {
    let mut mask = solid(1, 1, [200, 10, 10, 128]);
    normalize_mask_pixels(&mut mask);
    let once = mask.pixel(0, 0).unwrap();
    assert_eq!(once[3], 255);
    assert_eq!(once[0], once[1]);
    normalize_mask_pixels(&mut mask);
    assert_eq!(mask.pixel(0, 0), Some(once), "a plain mask stays");
}

#[test]
fn small_pictures_are_centred() {
    let placed = centre_on_canvas(3, 3, &solid(1, 1, [5, 6, 7, 255]));
    assert_eq!(placed.pixel(1, 1), Some([5, 6, 7, 255]));
    assert_eq!(placed.pixel(0, 0), Some([0, 0, 0, 0]));
    let full = centre_on_canvas(1, 1, &solid(1, 1, [5, 6, 7, 255]));
    assert_eq!(full.pixel(0, 0), Some([5, 6, 7, 255]));
    assert_eq!(checker_image(4, 2).pixels.len(), 32);
}

#[test]
fn stored_pixels_are_found_by_their_number() {
    let mut store = PixelStore::new();
    let first = store.put(solid(1, 1, [1, 1, 1, 1]), 7);
    let second = store.put(solid(1, 1, [2, 2, 2, 2]), 8);
    assert_ne!(first, second);
    let before = store.copy();
    assert!(store.same_versions(&before));
    store.replace(first, solid(1, 1, [3, 3, 3, 3]), 9);
    assert!(!store.same_versions(&before));
    assert_eq!(store.get(first).unwrap().pixel(0, 0), Some([3, 3, 3, 3]));
    assert_eq!(before.get(first).unwrap().pixel(0, 0), Some([1, 1, 1, 1]));
    assert_eq!(store.version(second), Some(8));
    assert_eq!(store.unshared_bytes(&before), 4);
    store.retain(&vec![second]);
    assert!(store.get(first).is_none());
    assert_eq!(store.len(), 1);
}

#[test]
fn histories_stay_small_and_can_be_walked() {
    let mut pane = open_pane();
    for _ in 0..HISTORY_ENTRY_LIMIT + 5 {
        pane.update(CanvasMsg::LayerToggleVisibility(0));
    }
    assert_eq!(pane.history.undo.len(), HISTORY_ENTRY_LIMIT);
    let hidden = pane.document.as_ref().unwrap().children[0].hidden;
    pane.update(CanvasMsg::Undo);
    assert_eq!(pane.document.as_ref().unwrap().children[0].hidden, !hidden);
    assert!(pane.can_redo());
    pane.update(CanvasMsg::Redo);
    assert_eq!(pane.document.as_ref().unwrap().children[0].hidden, hidden);
    assert!(!pane.can_redo() && pane.can_undo());
}

#[test]
fn deleted_layers_leave_no_pixels() {
    let mut pane = open_pane();
    pane.update(CanvasMsg::LayerAdd);
    assert_eq!(pane.store.len(), 2);
    pane.update(CanvasMsg::LayerDelete(0));
    assert_eq!(pane.store.len(), 1);
    let used = collect_pixels(&pane.document.as_ref().unwrap().children);
    assert_eq!(used.len(), 1);
    pane.update(CanvasMsg::Undo);
    assert_eq!(pane.store.len(), 2);
}

#[test]
fn layers_keep_their_neighbours() {
    let mut document = Document::new(4, 4);
    let a = document.new_layer("a".into(), 1);
    let b = document.new_layer("b".into(), 2);
    let up = shift_node(&document.children, a, -1);
    let ids: Vec<u64> = up.iter().map(|node| node.id).collect();
    assert_eq!(ids.len(), 2);
    assert!(ids.contains(&a) && ids.contains(&b));
    let same = shift_node(&document.children, 99, 1);
    assert_eq!(same.iter().map(|node| node.id).collect::<Vec<_>>(), vec![a, b]);
}

#[test]
fn curves_and_knobs_stay_in_their_ranges() {
    assert!(default_adjustment(0).is_none());
    assert!(default_adjustment(8).is_none());
    let mut curves = default_adjustment(7).unwrap();
    for x in [300_000, 600_000] {
        curves.edit(AdjustmentEdit::CurveAdd(1, x, x));
    }
    curves.edit(AdjustmentEdit::CurveSet(1, 1, 900_000, 400_000));
    let inputs: Vec<i64> = curves.channels[1].iter().map(|point| point.0).collect();
    assert!(inputs.windows(2).all(|pair| pair[0] < pair[1]), "{inputs:?}");
    assert_eq!((inputs[0], inputs[3]), (0, 1_000_000));
    assert!(!adjustment_label(2).is_empty());
    assert!(palette(0).is_some() && palette(8).is_none());
}

#[test]
fn opening_asks_about_changes() {
    let mut pane = open_pane();
    assert!(matches!(&pane.request_open("/b.png")[..], [CanvasStep::Open(p)] if p == "/b.png"));
    pane.update(CanvasMsg::LayerAdd);
    assert!(pane.is_modified());
    assert!(pane.request_open("/b.png").is_empty());
    assert!(pane.open_confirm);
    pane.update(CanvasMsg::OpenCancel);
    assert!(!pane.open_confirm);
    pane.image_ready("/b.png", Ok(solid(2, 2, [1, 2, 3, 255])));
    assert_eq!(pane.document_size(), Some((2, 2)));
    assert_eq!(pane.name, "b.png");
    assert!(!pane.can_undo());
}

#[test]
fn saves_settle_changes_where_they_are_written() {
    let mut pane = open_pane();
    pane.update(CanvasMsg::LayerAdd);
    let failed = SaveReport {
        path: "/p.comp".into(),
        written: Err("full".into()),
        remembered: Ok(()),
    };
    let steps = pane.finish_save(failed, false);
    assert!(matches!(&steps[..], [CanvasStep::Notify(m, true)] if m == "Canvas failed: full"));
    assert!(pane.is_modified() && pane.project_path.is_none());
    let written =
        SaveReport { path: "/p.comp".into(), written: Ok(()), remembered: Ok(()) };
    pane.finish_save(written, false);
    assert!(!pane.is_modified());
    assert_eq!(pane.project_path.as_deref(), Some("/p.comp"));
    assert!(matches!(&pane.save_current()[..], [CanvasStep::SaveTo(p)] if p == "/p.comp"));
    assert!(finish_export("/e.png", false, Err("x".into())).len() == 1);
}

#[test]
fn packages_are_checked() {
    let error = |value: Json| check_manifest(&value).unwrap_err();
    assert_eq!(error(Json::Null), "open: not a concat project");
    let marked = Json::from_members(vec![("concat-project".into(), Json::from_u64(1))]);
    assert_eq!(error(marked.copy()), "open: no document");
    let whole = marked.with("document", Json::empty_object());
    assert!(check_manifest(&whole).is_ok());
    assert!(check_manifest_size(1).is_ok());
    assert!(check_manifest_size(u64::MAX).is_err());
    let empty = check_document(&Document::new(0, 4), None, Ok(()));
    assert_eq!(empty.unwrap_err(), "open: empty canvas");
    let odd = check_document(&Document::new(4, 4), None, Err("bad tree".into()));
    assert_eq!(odd.unwrap_err(), "open: bad tree");
    let mut many = Document::new(2, 2);
    for n in 0..1001 {
        many.new_layer("l".into(), n);
    }
    assert_eq!(
        check_document(&many, None, Ok(())).unwrap_err(),
        "open: too many project bitmaps"
    );
    let mut heavy = Document::new(16_384, 16_384);
    heavy.new_layer("l".into(), 1);
    assert_eq!(
        check_document(&heavy, None, Ok(())).unwrap_err(),
        "open: project pixel data is too large"
    );
    let pixels = vec![0; 16];
    assert_eq!(
        accept_bitmap((2, 2), u64::MAX, Ok((2, 2, pixels.clone()))).err().unwrap(),
        "open: project bitmap is too large"
    );
    assert_eq!(
        accept_bitmap((3, 2), 1, Ok((2, 2, pixels.clone()))).err().unwrap(),
        "open: project bitmap dimensions do not match canvas"
    );
    assert_eq!(
        accept_bitmap((0, 2), 1, Ok((0, 2, Vec::new()))).err().unwrap(),
        "open: empty image"
    );
    assert!(accept_bitmap((2, 2), 1, Ok((2, 2, pixels))).is_ok());
    assert_eq!(project_name(&Json::Null, "/x/画.comp"), "画");
    assert_eq!(sorted_ids(&vec![3, 1, 3, 2]), vec![1, 2, 3]);
}

#[test]
fn packages_are_replaced_whole() {
    let (end, back) = replace_package(Replacement {
        previous: true,
        aside: Ok(()),
        placed: Err("full".into()),
        dropped: Ok(()),
    });
    assert_eq!(end.unwrap_err(), "save: full");
    assert!(back, "the package from before comes back");
    let (end, back) = replace_package(Replacement {
        previous: false,
        aside: Ok(()),
        placed: Ok(()),
        dropped: Ok(()),
    });
    assert!(end.is_ok() && !back);
    assert_eq!(sibling_temp("/x/a.comp", 7, 3), "/x/a.tmp-7-3");
    let mut tickets = SaveTickets::new();
    let first = tickets.canvas_save_ticket("/a");
    let other = tickets.canvas_save_ticket("/b");
    assert!(tickets.is_latest("/a", first) && tickets.is_latest("/b", other));
    tickets.canvas_save_ticket("/a");
    assert!(!tickets.is_latest("/a", first));
}

#[test]
fn used_projects_come_first() {
    let known: Vec<String> = (0..RECENT_LIMIT).map(|n| format!("/{n}")).collect();
    let after = remember_canvas_project(&known, "/5");
    assert_eq!(after.len(), RECENT_LIMIT);
    assert_eq!((after[0].as_str(), after[1].as_str()), ("/5", "/0"));
    let grown = remember_canvas_project(&known, "/new");
    assert_eq!(grown.len(), RECENT_LIMIT);
    assert_eq!(grown[0], "/new");
    assert_eq!(export_name("a.png"), "a.png");
    assert_eq!(save_name("a.png"), "a.comp");
    assert_eq!(library_export_name("a/b.png.png", "id"), "id-a_b.png");
}

fn project() -> Project {
    Project { session: true, clips: 1 }
}

fn running() -> ExportPane {
    let mut pane = ExportPane::new("/out".into());
    pane.update(ExportMsg::NameEdited("film".into()), project());
    let steps = pane.update(ExportMsg::Start, project());
    assert!(matches!(&steps[..], [ExportStep::SettleOutput(p)] if p == "/out/film.mp4"));
    pane.update(ExportMsg::Begun("/out/film.mp4".into(), false, Ok(())), project());
    pane
}

#[test]
fn renders_end_once() {
    let mut pane = running();
    assert!(pane.phase == ExportPhase::Running);
    let id = pane.active_job.as_ref().unwrap().id;
    pane.update(
        ExportMsg::Progress(id + 1, Fraction { done: 1, total: 2 }, "muxing".into()),
        project(),
    );
    assert_eq!(pane.progress.done, 0, "another render");
    pane.update(
        ExportMsg::Progress(id, Fraction { done: 1, total: 2 }, "muxing".into()),
        project(),
    );
    assert_eq!(pane.stage, "muxing");
    pane.update(ExportMsg::Finished(id, Ok("/out/film.mp4".into())), project());
    assert_eq!(pane.written, "/out/film.mp4");
    assert!(pane.active_job.is_none());
    let steps = pane.update(ExportMsg::Finished(id, Err("late".into())), project());
    assert!(steps.is_empty());
    assert_eq!(pane.written, "/out/film.mp4");
    assert_eq!(stage_label("muxing"), "Finalising file");
}

#[test]
fn outputs_have_plain_and_free_names() {
    assert!(check_output_name("film"));
    for name in ["", " film", "a/b", "a\\b", "a\u{7}"] {
        assert!(!check_output_name(name));
    }
    let free = unique_export_path("/out/film.mp4", &TextSet::new()).unwrap();
    assert_eq!(free, ("/out/film.mp4".to_owned(), false));
    assert_eq!(unique_export_path("/", &TextSet::new()).unwrap_err(), "导出文件名无效");
    let mut pane = ExportPane::new("/out".into());
    pane.update(ExportMsg::ResolutionChanged(99), project());
    assert_eq!(pane.resolution, 3);
    assert_eq!(pane.size(&vec![720, 1080, 1440, 2160], 1920, 1080), (3840, 2160));
    let shown = pane.data(&SheetFacts {
        width: 3840,
        height: 2160,
        rate: "30".into(),
        seconds: 75,
        clips: 1,
        titles: 2,
        codec: "H.264".into(),
        hardware: true,
        eta: "soon".into(),
    });
    assert_eq!(shown.format, "3840 × 2160 · 30 fps");
    assert_eq!(shown.duration, "1:15");
    assert_eq!(shown.contents, "1 clip · 2 titles");
    assert_eq!(shown.encoding, "H.264 · hardware");
    assert_eq!(shown.eta, "");
}

#[test]
fn times_are_told() {
    assert_eq!(frames_timecode(30 * 61 + 5, 30), "00:01:01:05");
    assert_eq!(phrase_between(0, 59_000), "just now");
    assert_eq!(phrase_between(0, 120_000), "2 minutes ago");
    assert_eq!(phrase_between(5, 0), "just now");
    assert_eq!(bezier_parts("a, b").len(), 2);
    let fallback = Bezier { x1: 1, y1: 2, x2: 3, y2: 4 };
    let read = parse_bezier(&vec![Some(5), None, Some(7), Some(8)], fallback);
    assert_eq!((read.x1, read.y1, read.x2, read.y2), (1, 2, 3, 4));
    let curve = |text: &str| {
        let read: Vec<Option<f32>> =
            bezier_parts(text).iter().map(|part| part.parse().ok()).collect();
        let made = parse_bezier(&read, Bezier { x1: 0.25, y1: 0.1, x2: 0.25, y2: 1.0 });
        [made.x1, made.y1, made.x2, made.y2]
    };
    assert_eq!(curve("0.42, 0, 0.58, 1"), [0.42, 0.0, 0.58, 1.0]);
    assert_eq!(curve("0.42, x, 0, 0.58, 1"), [0.25, 0.1, 0.25, 1.0]);
    assert_eq!(curve("0.42, 0, 0.58"), [0.25, 0.1, 0.25, 1.0]);
    assert_eq!(curve("0.42, 0, 0.58, 1, 2"), [0.25, 0.1, 0.25, 1.0]);
}

#[test]
fn groups_hold_their_children() {
    let mut pane = open_pane();
    pane.update(CanvasMsg::LayerAddGroup);
    pane.agent_layer_move_into(1, Some(0));
    let document = pane.document.as_ref().unwrap();
    assert_eq!(document.children.len(), 1);
    assert!(matches!(&document.children[0].body, Body::Group(v) if v.len() == 1));
}

fn identities(nodes: &[LayerNode], out: &mut Vec<u64>) {
    for node in nodes {
        out.push(node.id);
        if let Body::Group(children) = &node.body {
            identities(children, out);
        }
    }
}

#[test]
fn layers_keep_identities_of_their_own() {
    let mut pane = open_pane();
    let messages: Vec<CanvasMsg> = vec![
        CanvasMsg::LayerAdd,
        CanvasMsg::LayerAddGroup,
        CanvasMsg::LayerAdd,
        CanvasMsg::AdjustmentAdd(2),
        CanvasMsg::LayerDrop(0, 2, true),
        CanvasMsg::Undo,
        CanvasMsg::LayerAddGroup,
        CanvasMsg::LayerDrop(3, 0, true),
        CanvasMsg::LayerDelete(1),
        CanvasMsg::LayerMaskAdd,
        CanvasMsg::LayerMove(0, 1),
        CanvasMsg::Undo,
        CanvasMsg::Undo,
        CanvasMsg::Redo,
        CanvasMsg::LayerAdd,
        CanvasMsg::New(None),
    ];
    for msg in messages {
        pane.update(msg);
        let document = pane.document.as_ref().unwrap();
        let mut ids = Vec::new();
        identities(&document.children, &mut ids);
        let count = ids.len();
        assert!(ids.iter().all(|id| *id < document.next));
        ids.sort_unstable();
        ids.dedup();
        assert_eq!(ids.len(), count, "no identity is there twice");
    }
}

#[test]
fn a_redo_makes_the_newest_change_again() {
    let mut pane = open_pane();
    pane.update(CanvasMsg::LayerAdd);
    let (after, revision) = (pane.document.as_ref().unwrap().copy(), pane.revision);
    pane.update(CanvasMsg::Undo);
    assert_eq!(pane.document.as_ref().unwrap().children.len(), 1);
    pane.update(CanvasMsg::Redo);
    assert!(pane.document.as_ref().unwrap().same_as(&after));
    assert_eq!(pane.revision, revision);
}
