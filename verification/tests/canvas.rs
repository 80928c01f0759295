use concat::panes::canvas::adjustments::curve_segments;
use concat::panes::canvas::automation::Opened;
use concat::panes::canvas::codec::{decode, decode_png, encode_png};
use concat::panes::canvas::comp::{load_comp, pack_comp, FileRead};
use concat::panes::canvas::edits::topmost_image_in_parent;
use concat::panes::canvas::frame::{
    frame_thumbnail, validate_canvas_dimensions, Frame, Selection,
};
use concat::panes::canvas::history::{HISTORY_BYTE_LIMIT, HISTORY_ENTRY_LIMIT};
use concat::panes::canvas::opening::{save_comp, CanvasStep, SaveReport};
use concat::panes::canvas::package::{check_document, check_manifest, plan_save, read_bitmap};
use concat::panes::canvas::pane::{CanvasPane, Point};
use concat::panes::canvas::store::PixelStore;
use concat::panes::canvas::tree::{find, find_slot, node_image_pixels, Body, Document, Rgb};

const PIXEL: i64 = 1_000_000;

fn place(x: i64, y: i64) -> Point {
    Point { x: x * PIXEL, y: y * PIXEL }
}

fn rgb(red: u8, green: u8, blue: u8) -> Rgb {
    Rgb { red, green, blue }
}

/// A pane with a document of 300 by 200 pixels.
fn painting_pane() -> (CanvasPane, u64) {
    let mut pane = CanvasPane::default();
    let frame = Frame::from_rgba(300, 200, vec![0; 300 * 200 * 4]).expect("frame");
    let mut document = Document::new(frame.width, frame.height);
    let version = pane.versions;
    let pixels = pane.store.put(frame, version);
    pane.versions = version + 1;
    document.new_layer("probe".into(), pixels);
    pane.document = Some(document);
    pane.layer = Some(pixels);
    (pane, pixels)
}

fn set_pixel(frame: &mut Frame, x: usize, y: usize, rgba: [u8; 4]) {
    let at = (y * frame.width as usize + x) * 4;
    frame.pixels[at..at + 4].copy_from_slice(&rgba);
}

/// What the brush leaves at one pixel of the stroke that is under way.
fn dab(pane: &mut CanvasPane, x: usize, y: usize) {
    let tiles = vec![((x / 256) as u64, (y / 256) as u64)];
    let color = pane.brush.color;
    let rgba = if pane.brush.erasing {
        [0, 0, 0, 0]
    } else {
        [color.red, color.green, color.blue, 255]
    };
    pane.reset_tiles(&tiles);
    if let Some(stroke) = pane.stroke.as_mut() {
        if let Some(scratch) = stroke.scratch.as_mut() {
            set_pixel(scratch, x, y, rgba);
        }
    }
    pane.settle_tiles(&tiles, false);
}

fn click(pane: &mut CanvasPane, x: i64, y: i64) {
    if pane.brush_press(place(x, y), true) {
        dab(pane, x as usize, y as usize);
    }
    pane.brush_release();
}

fn pixel_of(pane: &CanvasPane, id: u64, x: u32, y: u32) -> [u8; 4] {
    pane.store.get(id).expect("pixels").pixel(x, y).expect("pixel")
}

fn rect_selection(x: usize, y: usize, width: usize, height: usize) -> Selection {
    let mut coverage = vec![0; 300 * 200];
    for row in y..y + height {
        for column in x..x + width {
            coverage[row * 300 + column] = 255;
        }
    }
    Selection { width: 300, height: 200, coverage }
}

fn select_rect(pane: &mut CanvasPane, x: usize, y: usize, width: usize, height: usize) {
    pane.agent_select_rect(Some((
        rect_selection(x, y, width, height),
        rect_selection(x, y, width, height),
    )));
}

fn solid_frame(rgba: [u8; 4]) -> Frame {
    let mut pixels = Vec::new();
    for _ in 0..4 {
        pixels.extend_from_slice(&rgba);
    }
    Frame { width: 2, height: 2, pixels }
}

fn saved_to(path: &str) -> SaveReport {
    SaveReport { path: path.into(), written: Ok(()), remembered: Ok(()) }
}

#[test]
fn a_tool_stays_in_the_tray() {
    let mut pane = CanvasPane::default();
    pane.set_tool(4);
    assert_eq!(pane.tool, 4);
    pane.set_tool(6);
    assert_eq!(pane.tool, 6);
    pane.set_tool(9);
    assert_eq!(pane.tool, 6, "a tool past the tray is the last one");
    pane.set_tool(-4);
    assert_eq!(pane.tool, 0, "a tool before the tray is the first one");
}

#[test]
fn an_opened_document_is_one_layer_the_size_of_the_canvas() {
    let mut pane = CanvasPane::default();
    let frame = Frame::from_rgba(4, 3, vec![128; 4 * 3 * 4]).expect("frame");
    let mut document = Document::new(frame.width, frame.height);
    let pixels = pane.store.put(frame, 1);
    document.new_layer("probe".into(), pixels);
    pane.document = Some(document);
    pane.layer = Some(pixels);

    assert_eq!(pane.document_size(), Some((4, 3)));
    assert_eq!(pane.store.get(pixels).map(|f| f.pixels.len()), Some(48));
}

#[test]
fn custom_colour_input_rejects_invalid_hex_and_picks_composite_without_painting() {
    let (mut pane, _) = painting_pane();
    pane.agent_set_brush_rgb(12, 34, 56);
    assert!(pane.brush.color == rgb(12, 34, 56));
    pane.agent_set_brush_hex("#0A141E");
    assert!(pane.brush.color == rgb(10, 20, 30));
    pane.agent_set_brush_hex("not-a-colour");
    assert!(pane.brush.color == rgb(10, 20, 30), "invalid text keeps the last colour");

    pane.agent_pick_color(Some([11, 22, 33, 255]));
    assert!(pane.brush.color == rgb(11, 22, 33));
    pane.agent_pick_color(None);
    assert!(pane.brush.color == rgb(11, 22, 33));
    assert!(pane.history.undo.is_empty(), "sampling does not create a stroke");
}

#[test]
fn thumbnails_wait_for_the_committed_pixel_revision_during_a_stroke() {
    let (mut pane, pixels) = painting_pane();
    let version = pane.store.version(pixels).expect("version");
    let drawn = (0, version, false);
    assert!(pane.thumbnail_stays(pixels, false, drawn));

    pane.set_tool(3);
    assert!(pane.brush_press(place(150, 100), true));
    dab(&mut pane, 150, 100);
    assert!(pane.thumbnail_stays(pixels, false, drawn), "pointer moves do not resample the row");

    pane.brush_release();
    assert!(!pane.thumbnail_stays(pixels, false, drawn), "release advances the pixel revision");
    assert!(pane.pixel_revisions[&pixels] > 0);
}

#[test]
fn thumbnail_sources_update_independently_and_preserve_aspect_ratio() {
    let (mut pane, pixels) = painting_pane();
    pane.agent_layer_add();
    let other = pane.layer.expect("second layer");
    let drawn = |pane: &CanvasPane, id: u64| {
        (
            pane.pixel_revisions.get(&id).copied().unwrap_or(0),
            pane.store.version(id).expect("version"),
            false,
        )
    };
    let initial = drawn(&pane, pixels);
    let second = drawn(&pane, other);
    let version = pane.versions;
    pane.store.replace(pixels, Frame::transparent(20, 40), version);
    pane.versions = version + 1;
    assert!(pane.thumbnail_stays(other, false, second));
    assert!(!pane.thumbnail_stays(pixels, false, initial));
    let small = frame_thumbnail(pane.store.get(pixels).unwrap(), 14, 28, false);
    assert_eq!(small.len(), 14 * 28 * 4);
    assert_eq!(pane.layer_thumbnails(), vec![(Some(other), None), (Some(pixels), None)]);
    assert!(pane.keeps_thumbnail(pixels));
    assert!(!pane.keeps_thumbnail(pixels + other + 1));
}

/// One group with two image children and no image beside it.
fn grouped_painting_pane() -> CanvasPane {
    let (mut pane, _) = painting_pane();
    pane.agent_layer_add();
    pane.agent_layer_group();

    for _ in 0..2 {
        let rows = pane.agent_layers();
        let group = rows.iter().position(|row| row.group).expect("group row");
        let source =
            rows.iter().position(|row| row.depth == 0 && !row.group).expect("root image row");
        pane.agent_layer_move_into(source as i32, Some(group as i32));
    }
    pane
}

#[test]
fn undo_restores_the_pre_stroke_pixels_and_redo_repeats_it() {
    let (mut pane, pixels) = painting_pane();
    pane.set_tool(3);
    click(&mut pane, 150, 100);
    let painted = pane.store.get(pixels).expect("pixels").pixels.clone();
    assert!(painted.iter().any(|&b| b != 0));

    pane.undo();
    let undone = pane.store.get(pixels).expect("pixels");
    assert!(undone.pixels.iter().all(|&b| b == 0), "undo returns the empty layer");

    pane.redo();
    let redone = pane.store.get(pixels).expect("pixels");
    assert_eq!(redone.pixels, painted, "redo repeats the stroke");
}

#[test]
fn a_stroke_copies_its_base_once_and_keeps_that_snapshot_shared() {
    let (mut pane, pixels) = painting_pane();
    pane.set_tool(3);
    let before = pane.store.get(pixels).expect("pixels").pixels.clone();
    assert!(pane.brush_press(place(40, 40), true));
    for (x, y) in [(60, 50), (90, 70), (120, 90)] {
        dab(&mut pane, x, y);
        let base = pane.stroke.as_ref().and_then(|s| s.base.as_ref()).expect("base stays");
        assert_eq!(base.pixels, before, "moves leave the base alone");
    }
    pane.brush_release();
    assert!(pane.stroke.is_none());
}

#[test]
fn a_brush_stroke_is_clipped_to_the_selection() {
    let (mut pane, pixels) = painting_pane();
    select_rect(&mut pane, 100, 80, 20, 40);
    pane.set_tool(3);
    assert!(pane.brush_press(place(110, 100), true));
    let tiles = vec![(0, 0)];
    pane.reset_tiles(&tiles);
    let scratch = pane.stroke.as_mut().unwrap().scratch.as_mut().unwrap();
    for x in 70..151 {
        set_pixel(scratch, x, 100, [30, 30, 34, 255]);
    }
    pane.settle_tiles(&tiles, false);
    pane.brush_release();
    assert_eq!(pixel_of(&pane, pixels, 110, 100)[3], 255);
    assert_eq!(pixel_of(&pane, pixels, 80, 100)[3], 0);
    assert_eq!(pixel_of(&pane, pixels, 140, 100)[3], 0);
}

#[test]
fn document_and_pixel_edits_share_one_ordered_history() {
    let (mut pane, pixels) = painting_pane();
    pane.set_tool(3);
    click(&mut pane, 150, 100);
    pane.agent_layer_toggle_visibility(0);
    assert!(pane.document.as_ref().unwrap().children[0].hidden);

    pane.undo();
    assert!(!pane.document.as_ref().unwrap().children[0].hidden);
    assert!(pixel_of(&pane, pixels, 150, 100)[3] > 0);
    pane.undo();
    assert_eq!(pixel_of(&pane, pixels, 150, 100)[3], 0);
}

#[test]
fn history_enforces_entry_and_retained_byte_limits() {
    let (mut pane, _) = painting_pane();
    for _ in 0..(HISTORY_ENTRY_LIMIT + 20) {
        pane.agent_layer_toggle_visibility(0);
    }
    assert_eq!(pane.history.undo.len(), HISTORY_ENTRY_LIMIT);
    pane.history.undo[0].retained_bytes = HISTORY_BYTE_LIMIT + 1;
    pane.history.trim_history();
    assert!(pane.history.undo.len() < HISTORY_ENTRY_LIMIT);
    assert!(
        pane.history.undo.iter().map(|entry| entry.retained_bytes).sum::<u64>()
            <= HISTORY_BYTE_LIMIT
    );
}

#[test]
fn the_eraser_clears_alpha() {
    let (mut pane, pixels) = painting_pane();
    let filled =
        Frame::from_rgba(300, 200, [10, 20, 30, 255].repeat(300 * 200)).expect("frame");
    let version = pane.versions;
    pane.store.replace(pixels, filled, version);
    pane.versions = version + 1;
    pane.set_tool(4);
    assert!(pane.brush.erasing);
    click(&mut pane, 150, 100);
    assert_eq!(pixel_of(&pane, pixels, 150, 100)[3], 0, "the eraser cleared its centre");
}

#[test]
fn a_press_off_the_canvas_starts_nothing() {
    let (mut pane, pixels) = painting_pane();
    pane.set_tool(3);
    assert!(!pane.brush_press(place(500, 100), true));
    pane.brush_release();
    assert!(pane.history.undo.is_empty(), "no stroke, no history entry");
    assert_eq!(pane.store.get(pixels).unwrap().pixels[3], 0);
}

#[test]
fn an_agent_export_writes_a_decodable_png() {
    let (pane, pixels) = painting_pane();
    assert!(pane.agent_export_png(None).is_ok());
    let bytes = encode_png(pane.store.get(pixels).unwrap()).expect("the export wrote");
    let (width, height, rgba) = decode_png(&bytes, None).expect("a decodable png");
    assert_eq!((width, height), (300, 200));
    assert_eq!(rgba.len(), 300 * 200 * 4);

    let empty = CanvasPane::default();
    assert!(empty.agent_export_png(None).is_err(), "nothing open, no export");
}

#[test]
fn png_decoder_expands_palette_and_strips_sixteen_bit_channels() {
    let mut indexed = Vec::new();
    {
        let mut encoder = png::Encoder::new(&mut indexed, 2, 1);
        encoder.set_color(png::ColorType::Indexed);
        encoder.set_depth(png::BitDepth::Eight);
        encoder.set_palette(vec![10, 20, 30, 200, 210, 220]);
        encoder.set_trns(vec![255, 128]);
        let mut writer = encoder.write_header().expect("indexed header");
        writer.write_image_data(&[0, 1]).expect("indexed pixels");
    }
    let (_, _, rgba) = decode_png(&indexed, None).expect("indexed png");
    assert_eq!(rgba, vec![10, 20, 30, 255, 200, 210, 220, 128]);

    let mut sixteen = Vec::new();
    {
        let mut encoder = png::Encoder::new(&mut sixteen, 1, 1);
        encoder.set_color(png::ColorType::Rgb);
        encoder.set_depth(png::BitDepth::Sixteen);
        let mut writer = encoder.write_header().expect("16-bit header");
        writer
            .write_image_data(&[0x12, 0x34, 0x56, 0x78, 0x9a, 0xbc])
            .expect("16-bit pixels");
    }
    let (_, _, rgba) = decode_png(&sixteen, None).expect("16-bit png");
    assert_eq!(rgba, vec![0x12, 0x56, 0x9a, 255]);
}

#[test]
fn device_texture_limit_rejects_a_thin_canvas_before_gpu_upload() {
    assert!(validate_canvas_dimensions(16_384, 1, Some(16_384)).is_ok());
    let error = validate_canvas_dimensions(16_385, 1, Some(16_384)).unwrap_err();
    assert!(error.contains("16384px texture limit"));
}

#[test]
fn project_open_checks_the_device_limit_before_replacing_the_document() {
    let document = Document::new(16_385, 1);
    let (mut pane, _) = painting_pane();
    let package = pack_comp(
        &document,
        &PixelStore::new(),
        "thin",
        concat::json::Json::empty_object(),
    )
    .expect("the package");
    let read = load_comp(
        &package.manifest,
        "/tmp/thin.comp",
        document,
        Ok(()),
        &Vec::new(),
        Some(16_384),
    );
    let error = read.as_ref().err().expect("the device takes no such side");
    assert!(error.contains("16384px texture limit"));
    let steps = pane.project_ready("/tmp/thin.comp", read);
    assert!(matches!(&steps[0], CanvasStep::Notify(_, true)));
    assert_eq!(pane.document_size(), Some((300, 200)));
}

#[test]
fn an_adjustment_lands_above_the_active_layer_and_publishes_its_knobs() {
    let (mut pane, _) = painting_pane();
    pane.agent_layer_pick(0);
    pane.agent_adjustment_add(2);

    let rows = pane.agent_layers();
    assert_eq!(rows.len(), 2, "the adjustment joined the stack");
    assert_eq!(rows[0].id, pane.active.expect("active"));
    assert!(pane.layer.is_some(), "painting falls back to the base");

    let (kind, parameters) = pane.agent_adjustment_state();
    assert_eq!(kind, 2);
    assert_eq!(parameters.len(), 1);
    assert_eq!(parameters[0].0.label, "Stops");
    assert_eq!(parameters[0].1, 0, "a fresh exposure changes nothing");

    pane.agent_adjustment_param(0, 5_000_000);
    let (_, parameters) = pane.agent_adjustment_state();
    assert_eq!(parameters[0].1, 4_000_000, "stops clamp at four");
    pane.agent_layer_pick(1);
    pane.agent_adjustment_param(0, 1_000_000);
    let document = pane.document.as_ref().expect("open");
    let node = find(&document.children, pane.active.expect("active")).expect("node");
    assert!(matches!(node.body, Body::Image(_)));
}

#[test]
fn a_project_package_round_trips_through_a_save_and_a_load() {
    let (mut pane, pixels) = painting_pane();
    pane.name = "分层画布".to_owned();
    pane.set_tool(3);
    click(&mut pane, 150, 100);
    pane.agent_adjustment_add(6);
    let tree = pane.document.as_ref().expect("open").copy();

    let path = "/tmp/round-trip.comp";
    let described = concat::json::Json::from_text("the tree");
    let package = pack_comp(pane.document.as_ref().unwrap(), &pane.store, &pane.name, described)
        .expect("the package is written");
    assert_eq!(package.images.len(), 1);
    assert_eq!(package.images[0].0, pixels);
    assert_eq!(package.manifest.text("document"), "the tree");
    pane.agent_save_comp(saved_to(path)).expect("the save wrote");
    assert_eq!(pane.project_path.as_deref(), Some(path));
    assert!(!pane.is_modified(), "a successful save clears the canvas dirty state");
    pane.set_tool(3);
    click(&mut pane, 150, 100);
    assert!(pane.is_modified(), "a post-save stroke is dirty");
    pane.undo();
    assert_eq!(pane.project_path.as_deref(), Some(path));
    assert!(!pane.is_modified(), "undo restores the saved revision");

    let mut back = CanvasPane::default();
    check_manifest(&package.manifest).expect("the manifest of a project");
    let ids = check_document(&tree, None, Ok(())).expect("the document is sound");
    assert_eq!(ids, vec![pixels]);
    let files = package
        .images
        .iter()
        .map(|(_, bytes)| FileRead::Found(bytes.len() as u64, Ok(bytes.clone())))
        .collect();
    let project = load_comp(&package.manifest, path, tree.copy(), Ok(()), &files, None)
        .expect("the package is read");
    back.agent_open(path, Opened::Project(Ok(project))).expect("the package opened");
    assert_eq!(back.name, "分层画布");
    assert_eq!(back.project_path.as_deref(), Some(path));
    assert!(back.document.as_ref().expect("open").same_as(&tree), "the tree comes back");
    let frame = back.store.get(pixels).expect("pixels");
    assert!(frame.pixels.iter().skip(3).step_by(4).any(|&a| a > 0), "the stroke came back");
    assert_eq!(frame.pixels, pane.store.get(pixels).expect("pixels").pixels);

    let version = back.versions;
    let fresh = back.store.put(Frame::transparent(1, 1), version);
    assert!(fresh > pixels, "the counter sits above the save's ids");

    assert!(check_manifest(&concat::json::Json::empty_object()).is_err());
}

#[test]
fn multi_layer_auto_save_uses_an_immutable_snapshot_and_leaves_later_edits_dirty() {
    let mut pane = CanvasPane::default();
    let mut document = Document::new(1920, 1080);
    for index in 0..4 {
        let version = pane.versions;
        let id = pane.store.put(Frame::transparent(8, 8), version);
        pane.versions = version + 1;
        document.new_layer(format!("图层 {index}"), id);
    }
    pane.document = Some(document);
    pane.project_path = Some("/tmp/stable-project-id.comp".into());
    pane.name = "未命名画布".to_owned();
    pane.revision = 10;
    pane.saved_revision = 9;
    let path = pane.start_auto_save("/tmp/fresh.comp").expect("start background save");
    assert_eq!(path, "/tmp/stable-project-id.comp");
    assert!(pane.start_auto_save("/tmp/fresh.comp").is_none(), "one save at a time");
    assert_eq!(plan_save(pane.document.as_ref().unwrap()).unwrap().len(), 4);
    pane.name = "编辑后的标题".to_owned();
    pane.revision = 11;
    let generation = pane.document_generation;
    let steps = pane.finish_auto_save(generation, &path, 10, Ok(true));
    assert!(pane.is_modified(), "an edit after the snapshot stays dirty");
    assert!(matches!(&steps[0], CanvasStep::RegistryChanged));
    assert!(matches!(&steps[1], CanvasStep::AutoSave(350)));
    let again = pane.start_auto_save("/tmp/fresh.comp").expect("the next save");
    pane.finish_auto_save(generation, &again, 11, Ok(true));
    assert!(!pane.is_modified());
}

#[test]
fn save_current_writes_new_stroke_to_recorded_path_and_clears_dirty() {
    let path = "/tmp/original.comp";
    let (mut pane, pixels) = painting_pane();
    pane.save_to_path(saved_to(path)).expect("initial save records path");
    let original = encode_png(pane.store.get(pixels).unwrap()).unwrap();
    pane.set_tool(3);
    pane.brush.color = rgb(12, 34, 56);
    click(&mut pane, 150, 100);
    assert!(pane.is_modified(), "new stroke must be dirty");
    let expected = pane.store.get(pixels).expect("painted frame").pixels.clone();

    let steps = pane.save_current();
    assert!(matches!(&steps[0], CanvasStep::SaveTo(to) if to == path));
    let written = encode_png(pane.store.get(pixels).unwrap()).unwrap();
    pane.finish_save(saved_to(path), false);
    assert_eq!(pane.project_path.as_deref(), Some(path));
    assert!(!pane.is_modified(), "ordinary save clears dirty");
    assert_ne!(written, original, "an ordinary save rewrites the package");
    let frame = read_bitmap((300, 200), written.len() as u64, &written, None).unwrap();
    assert_eq!(frame.pixels, expected);
}

#[test]
fn failed_save_to_path_preserves_original_path_dirty_state_and_saved_content() {
    let path = "/tmp/original.comp";
    let (mut pane, pixels) = painting_pane();
    pane.set_tool(3);
    click(&mut pane, 80, 60);
    pane.save_to_path(saved_to(path)).expect("initial saved package");
    let saved_pixels = pane.store.get(pixels).expect("saved frame").pixels.clone();
    let saved_revision = pane.saved_revision;
    let saved_name = pane.name.clone();
    click(&mut pane, 220, 140);
    assert!(pane.is_modified());
    let edited_pixels = pane.store.get(pixels).expect("edited frame").pixels.clone();
    assert_ne!(edited_pixels, saved_pixels);

    let failed = SaveReport {
        path: "/tmp/ordinary-file/unsavable.comp".into(),
        written: Err("save: not a directory".into()),
        remembered: Ok(()),
    };
    assert!(pane.save_to_path(failed).is_err());
    assert_eq!(pane.project_path.as_deref(), Some(path));
    assert_eq!(pane.name, saved_name);
    assert_eq!(pane.saved_revision, saved_revision);
    assert!(pane.is_modified(), "failed save leaves edits dirty");
    assert_eq!(pane.store.get(pixels).expect("edits survive").pixels, edited_pixels);
}

#[test]
fn opening_a_second_image_replaces_pixels_with_no_old_store_residue() {
    let first = encode_png(&solid_frame([10, 20, 30, 255])).unwrap();
    let second = encode_png(&solid_frame([90, 80, 70, 255])).unwrap();

    let mut pane = CanvasPane::default();
    pane.agent_open("/tmp/first.png", Opened::Image(decode("/tmp/first.png", &first, None)))
        .expect("first opens");
    let first_id = pane.layer.expect("first id");
    pane.agent_open("/tmp/second.png", Opened::Image(decode("/tmp/second.png", &second, None)))
        .expect("second opens");
    let second_id = pane.layer.expect("second id");
    assert!(pane.project_path.is_none(), "an image starts a fresh Save As path");
    assert_eq!(pane.store.len(), 1);
    assert_eq!(second_id, 1, "a new document has a fresh store");
    assert_eq!(pixel_of(&pane, second_id, 0, 0), [90, 80, 70, 255]);
    assert_eq!(first_id, second_id, "ids may repeat across documents");
}

#[test]
fn agent_open_holds_a_pending_path_until_modified_work_is_saved() {
    let next = "/tmp/next.png";
    let image = encode_png(&solid_frame([4, 5, 6, 255])).unwrap();

    let (mut pane, _) = painting_pane();
    pane.set_tool(3);
    click(&mut pane, 20, 20);
    assert!(pane.is_modified());
    assert!(pane.agent_open(next, Opened::Image(decode(next, &image, None))).is_err());
    assert!(pane.open_confirm);
    assert_eq!(pane.pending_open.as_deref(), Some(next));

    pane.save_to_path(saved_to("/tmp/saved.comp")).expect("project saved");
    assert!(!pane.is_modified());
    pane.agent_open(next, Opened::Image(decode(next, &image, None)))
        .expect("open proceeds after save");
    assert_eq!(pixel_of(&pane, pane.layer.unwrap(), 0, 0), [4, 5, 6, 255]);
}

#[test]
fn a_group_folds_and_its_rows_keep_their_indexes() {
    let (mut pane, _) = painting_pane();
    pane.agent_layer_add();
    pane.agent_layer_group();
    let rows = pane.agent_layers();
    assert_eq!(rows.len(), 3);
    assert!(rows[0].expanded, "the front row is a group");
    assert!(rows[0].group, "the group's row is a group at all");
    assert_eq!(rows[0].depth, 0, "the group sits at the root's depth");
    assert_eq!(rows[1].depth, 0, "the layers beside it sit at the root too");
    assert!(!rows[1].expanded && !rows[1].group, "a layer is neither group nor expanded");
    assert!(!rows.iter().any(|row| row.masked), "nothing carries a mask yet");

    pane.agent_layer_move_into(2, Some(0));
    let rows = pane.agent_layers();
    assert_eq!(rows.len(), 3, "folding aside, every row still shows");
    assert_eq!(rows[1].depth, 1, "the adopted layer sits one step in");
    assert_eq!(rows[2].depth, 0, "the outside layer stays at the root");

    pane.agent_layer_fold(0);
    assert_eq!(
        pane.agent_layers().len(),
        2,
        "the adopted layer folded away, the outside one stayed"
    );
    pane.agent_layer_fold(0);
    let rows = pane.agent_layers();
    assert_eq!(rows.len(), 3, "the children came back");
    assert!(rows[0].expanded && rows[0].group, "unfolded: shown children, is a group");
    pane.agent_layer_fold(0);
    let rows = pane.agent_layers();
    assert_eq!(rows.len(), 2);
    assert!(!rows[0].expanded && rows[0].group, "folded: children hidden, still a group");
    pane.agent_layer_fold(0);

    pane.agent_layer_move(0, 1);
    let rows = pane.agent_layers();
    assert!(!rows[0].expanded, "the outside layer now leads the panel");
    assert!(rows[1].expanded, "the group follows, children and all");
}

#[test]
fn a_curves_adjustment_round_trips_through_the_editor_protocol() {
    let (mut pane, _) = painting_pane();
    pane.agent_adjustment_add(7);
    let channels = pane.agent_curve_channels();
    assert_eq!(channels.len(), 3);
    for points in &channels {
        assert_eq!(
            points,
            &vec![(0, 0), (1_000_000, 1_000_000)],
            "a fresh curve is the identity"
        );
    }

    pane.agent_curve_add(0, 500_000, 600_000);
    pane.agent_curve_add(0, 250_000, 300_000);
    let red = pane.agent_curve_channels()[0].clone();
    assert_eq!(
        red,
        vec![(0, 0), (250_000, 300_000), (500_000, 600_000), (1_000_000, 1_000_000)]
    );

    pane.agent_curve_set(0, 2, 100_000, 600_000);
    let red = pane.agent_curve_channels()[0].clone();
    assert!(red[2].0 > red[1].0, "the input kept its order");
    assert_eq!(red[2].1, 600_000, "the output took the drag");

    pane.agent_curve_set(0, 0, 900_000, 200_000);
    pane.agent_curve_set(0, 3, 100_000, 800_000);
    let red = pane.agent_curve_channels()[0].clone();
    assert_eq!(red[0].0, 0);
    assert_eq!(red[0].1, 200_000);
    assert_eq!(red[3].0, 1_000_000);
    assert_eq!(red[3].1, 800_000);

    pane.agent_curve_remove(0, 2);
    assert_eq!(pane.agent_curve_channels()[0].len(), 3);
    pane.agent_curve_remove(0, 0);
    assert_eq!(pane.agent_curve_channels()[0].len(), 3);

    let segments = curve_segments(&pane.agent_curve_channels()[0].clone());
    assert_eq!(segments.len(), 2);
    let first = &segments[0];
    assert_eq!((first.x, first.y), (0, 800_000));
    assert_eq!(first.x2, 250_000);

    assert_eq!(pane.agent_curve_channels()[1], vec![(0, 0), (1_000_000, 1_000_000)]);

    pane.agent_layer_pick(1);
    assert!(pane.agent_curve_channels().is_empty());
}

#[test]
fn a_drag_reorders_and_adopts_through_the_drop_rule() {
    let (mut pane, _) = painting_pane();
    pane.agent_layer_add();
    pane.agent_layer_group();
    let rows = pane.agent_layers();
    assert!(rows[0].group, "the group leads the panel");
    let group_id = rows[0].id;

    pane.agent_layer_drop(2, 0, true);
    let rows = pane.agent_layers();
    assert_eq!(rows.len(), 3);
    assert_eq!(rows[1].depth, 1, "the base sits one step in, adopted");
    assert_eq!(rows[0].id, group_id, "the group keeps its identity");

    pane.agent_layer_drop(2, 1, false);
    let rows = pane.agent_layers();
    assert_eq!(rows[0].id, group_id, "the group still leads");
    assert_eq!(rows[1].depth, 1, "the base stays one step in");
    assert_eq!(rows[2].depth, 1, "the added row joined it there");

    pane.agent_layer_drop(0, 1, true);
    let rows = pane.agent_layers();
    assert_eq!(rows[0].id, group_id, "the refusal left the tree alone");
    assert_eq!(rows[1].depth, 1);

    pane.agent_layer_drop(2, 0, false);
    let rows = pane.agent_layers();
    assert_eq!(rows[0].depth, 0, "the base is out at the root's depth");
    assert_eq!(rows[1].id, group_id, "the group follows it");
    assert_eq!(rows[2].depth, 1, "the added row stayed inside");

    pane.agent_layer_drop(0, 0, true);
    let rows = pane.agent_layers();
    assert_eq!(rows[0].depth, 0, "nothing moved");
}

#[test]
fn nested_delete_keeps_sibling_and_refreshes_adjustment_target() {
    let mut pane = grouped_painting_pane();
    let rows = pane.agent_layers();
    let children: Vec<(usize, u64)> = rows
        .iter()
        .enumerate()
        .filter(|(_, row)| row.depth == 1 && !row.group)
        .map(|(index, row)| (index, row.id))
        .collect();
    assert_eq!(children.len(), 2, "the fixture has two group children");

    pane.agent_layer_pick(children[0].0 as i32);
    pane.agent_layer_delete(children[0].0 as i32);
    assert_eq!(pane.active, Some(children[1].1));
    let active_pixels = pane.active.and_then(|id| {
        let document = pane.document.as_ref()?;
        find(&document.children, id).and_then(node_image_pixels)
    });
    assert_eq!(pane.layer, active_pixels, "the selected sibling is paintable");

    let mut pane = grouped_painting_pane();
    let rows = pane.agent_layers();
    let child = rows.iter().position(|row| row.depth == 1 && !row.group).expect("nested image");
    pane.agent_layer_pick(child as i32);
    pane.agent_adjustment_add(1);
    let adjustment = pane.active;
    let image_to_remove = pane
        .rows()
        .iter()
        .position(|(node, depth)| *depth == 1 && node_image_pixels(node).is_some())
        .expect("remaining nested image");
    pane.agent_layer_delete(image_to_remove as i32);
    assert_eq!(pane.active, adjustment, "the adjustment survives");
    let document = pane.document.as_ref().expect("open");
    let parent = find_slot(&document.children, adjustment.unwrap(), None).expect("slot").0;
    let expected = topmost_image_in_parent(&document.children, parent);
    assert_eq!(pane.layer, expected, "the sibling remains the paint target");
    assert!(pane.layer.is_some_and(|id| pane.store.get(id).is_some()));
}

#[test]
fn nested_adjustment_and_group_stay_in_the_selected_parent() {
    let mut pane = grouped_painting_pane();
    let child_row = pane
        .agent_layers()
        .iter()
        .position(|row| row.depth == 1 && !row.group)
        .expect("nested image");
    pane.agent_layer_pick(child_row as i32);
    let parent_of = |pane: &CanvasPane, id: u64| {
        let document = pane.document.as_ref().expect("open");
        find_slot(&document.children, id, None).and_then(|(parent, _)| parent)
    };
    let parent = parent_of(&pane, pane.active.unwrap()).expect("the image has a group parent");

    pane.agent_adjustment_add(1);
    let adjustment = pane.active.expect("new adjustment is active");
    assert_eq!(parent_of(&pane, adjustment), Some(parent));
    let depth_of = |pane: &CanvasPane, id: u64| {
        pane.agent_layers().iter().find(|row| row.id == id).map(|row| row.depth)
    };
    assert_eq!(depth_of(&pane, adjustment), Some(1), "the adjustment remains nested");

    pane.agent_layer_group();
    let group = pane.active.expect("new group is active");
    assert_eq!(parent_of(&pane, group), Some(parent));
    assert_eq!(depth_of(&pane, group), Some(1), "the new group remains nested");
}

fn mask_of(pane: &CanvasPane) -> u64 {
    let document = pane.document.as_ref().expect("open");
    find(&document.children, pane.active.expect("active"))
        .and_then(|node| node.mask)
        .map(|mask| mask.pixels)
        .expect("the mask exists")
}

#[test]
fn a_mask_hides_where_the_brush_paints_it_black() {
    let (mut pane, pixels) = painting_pane();
    pane.set_tool(3);
    pane.brush.color = rgb(10, 20, 30);
    click(&mut pane, 150, 100);
    let original = pane.store.get(pixels).expect("layer before mask").pixels.clone();
    assert_eq!(pixel_of(&pane, pixels, 150, 100)[3], 255, "the stroke is there");

    pane.set_tool(4);
    pane.agent_layer_mask_add(0);
    assert_eq!(pane.tool, 3, "adding a mask switches to the brush");
    assert!(!pane.brush.erasing, "mask painting starts with a normal brush");
    assert!(pane.agent_paint_mask(), "the tools point at the fresh mask");
    pane.paint_mask = false;
    pane.set_tool(2);
    pane.mask_chip_click(0);
    assert_eq!(pane.tool, 3, "the mask chip leaves zoom mode for painting");
    assert!(!pane.brush.erasing, "mask chip painting is not erasing");
    assert!(pane.agent_paint_mask(), "the chip selects the mask target");
    let rows = pane.agent_layers();
    assert!(rows[0].masked, "the row carries a mask");
    assert!(rows[0].painting, "that mask is the one being painted");

    let mask_id = mask_of(&pane);
    let mask = pane.store.get(mask_id).expect("mask pixels");
    assert!(
        mask.pixels.chunks_exact(4).all(|pixel| pixel == [255, 255, 255, 255]),
        "a fresh mask shows everything"
    );

    pane.brush.color = rgb(0, 0, 0);
    click(&mut pane, 150, 100);
    assert_eq!(pixel_of(&pane, mask_id, 150, 100), [0, 0, 0, 255]);
    assert_eq!(pixel_of(&pane, mask_id, 10, 10), [255, 255, 255, 255]);

    pane.undo();
    assert_eq!(pixel_of(&pane, mask_id, 150, 100), [255, 255, 255, 255], "undo restores the mask");

    let layer = pane.store.get(pixels).expect("layer pixels");
    assert_eq!(layer.pixels, original, "painting the mask preserves every source byte");
    assert_eq!(pane.paint_target(), Some(mask_id), "the tools are still on the mask");

    pane.agent_layer_mask_remove(0);
    assert!(!pane.agent_paint_mask(), "no mask, no mask painting");
    assert!(pane.store.get(mask_id).is_none(), "the pixels went too");
}

#[test]
fn a_mask_sets_aside_and_applies_whole() {
    let (mut pane, _) = painting_pane();
    pane.set_tool(3);
    pane.brush.color = rgb(10, 20, 30);
    click(&mut pane, 150, 100);
    pane.agent_layer_mask_add(0);
    pane.brush.color = rgb(0, 0, 0);
    click(&mut pane, 150, 100);

    let rows = pane.agent_layers();
    assert!(rows[0].masked, "the row carries a mask");
    assert!(rows[0].painting, "that mask is the one being painted");
    assert!(rows[0].enabled, "and it is enabled");
    let mask_id = mask_of(&pane);
    let black = pane.store.get(mask_id).unwrap().pixels.clone();

    pane.agent_layer_mask_toggle(0);
    assert!(!pane.agent_layers()[0].enabled, "the mask is set aside");
    assert_eq!(pane.store.get(mask_id).unwrap().pixels, black, "every pixel is kept");

    assert!(pane.agent_paint_mask(), "the tools never left the mask");
    pane.agent_layer_mask_toggle(0);
    assert!(pane.agent_layers()[0].enabled, "the mask applies again");
}

#[test]
fn mask_eraser_and_selection_delete_clear_red_coverage_for_cpu_and_gpu() {
    let (mut pane, pixels) = painting_pane();
    pane.set_tool(3);
    click(&mut pane, 150, 100);
    let source = pane.store.get(pixels).expect("source").pixels.clone();
    pane.agent_layer_mask_add(0);
    let mask_id = pane.paint_target().expect("mask target");

    pane.set_tool(4);
    click(&mut pane, 150, 100);
    assert_eq!(
        pixel_of(&pane, mask_id, 150, 100),
        [0, 0, 0, 255],
        "eraser becomes zero mask coverage"
    );
    assert_eq!(
        pane.store.get(pixels).unwrap().pixels,
        source,
        "mask erasing leaves source RGBA untouched"
    );

    pane.undo();
    select_rect(&mut pane, 140, 90, 20, 20);
    let mut cleared = pane.store.get(mask_id).unwrap().copy();
    for y in 90..110 {
        for x in 140..160 {
            set_pixel(&mut cleared, x, y, [0, 0, 0, 0]);
        }
    }
    pane.agent_delete_selection(cleared);
    assert_eq!(
        pixel_of(&pane, mask_id, 150, 100),
        [0, 0, 0, 255],
        "selection delete also clears mask coverage"
    );
}

#[test]
fn the_gradient_maps_colours_follow_the_palette() {
    let (mut pane, _) = painting_pane();
    pane.agent_adjustment_add(5);
    let (kind, parameters) = pane.agent_adjustment_state();
    assert_eq!(kind, 5);
    assert!(parameters.is_empty(), "colours are not knobs");
    let (low, high) = pane.gradient_colors().expect("a gradient map");
    assert!(low == rgb(0, 0, 0), "a fresh map starts black");
    assert!(high == rgb(255, 255, 255), "and ends white");

    pane.agent_gradient_color(0, 2);
    let (low, high) = pane.gradient_colors().expect("still a gradient map");
    assert!(low == rgb(212, 59, 55));
    assert!(high == rgb(255, 255, 255), "the other end stood still");
    pane.agent_gradient_color(1, 0);
    assert!(pane.gradient_colors().expect("still").1 == rgb(30, 30, 34));

    pane.agent_layer_pick(1);
    assert!(pane.gradient_colors().is_none());
}

#[test]
fn packages_that_cannot_be_written_or_read_are_told() {
    let (mut pane, pixels) = painting_pane();
    let tree = pane.document.as_ref().expect("open").copy();
    let package = pack_comp(&tree, &pane.store, "a", concat::json::Json::empty_object())
        .expect("the package");
    assert_eq!(check_document(&tree, None, Ok(())), Ok(vec![pixels]));
    let read = |file: FileRead| {
        load_comp(&package.manifest, "/tmp/a.comp", tree.copy(), Ok(()), &vec![file], None)
            .err()
            .expect("the file is refused")
    };
    assert_eq!(read(FileRead::Missing("gone".into())), "open: gone");
    assert_eq!(
        read(FileRead::Found(67_108_865, Ok(Vec::new()))),
        "open: project bitmap is too large"
    );
    assert_eq!(read(FileRead::Found(1, Err("locked".into()))), "open: locked");
    let small = encode_png(&Frame::transparent(2, 2)).expect("png");
    assert_eq!(
        read(FileRead::Found(small.len() as u64, Ok(small))),
        "open: project bitmap dimensions do not match canvas"
    );
    let manifest = concat::json::Json::empty_object();
    let refused = load_comp(&manifest, "/tmp/a.comp", tree.copy(), Ok(()), &Vec::new(), None);
    assert_eq!(refused.err().as_deref(), Some("open: not a concat project"));
    let bad = Err("two roots".to_owned());
    let refused =
        load_comp(&package.manifest, "/tmp/a.comp", tree.copy(), bad, &Vec::new(), None);
    assert!(refused.err().expect("the tree is not valid").contains("two roots"));
    pane.store.retain(&Vec::new());
    let error = pack_comp(
        pane.document.as_ref().unwrap(),
        &pane.store,
        "a",
        concat::json::Json::empty_object(),
    )
    .err()
    .expect("the pixels are gone");
    assert_eq!(error, format!("save: pixels {pixels} are gone"));
}

#[test]
fn put_off_saves_are_due_while_nothing_changes() {
    let (mut pane, _) = painting_pane();
    pane.save_to_path(saved_to("/tmp/due.comp")).expect("saved");
    let revision = pane.revision;
    assert!(!pane.is_save_due(None, revision), "nothing is to be saved");
    pane.set_tool(3);
    click(&mut pane, 150, 100);
    let (generation, changed) = (pane.document_generation, pane.revision);
    assert_ne!(changed, revision);
    assert!(pane.is_save_due(None, changed));
    assert!(pane.is_save_due(Some(generation), changed));
    assert!(!pane.is_save_due(Some(generation + 1), changed), "another document");
    assert!(!pane.is_save_due(None, revision), "changed again since");
}

#[test]
fn overtaken_saves_fail() {
    assert_eq!(save_comp(Ok(true)), Ok(()));
    assert_eq!(
        save_comp(Ok(false)),
        Err("save: a newer revision superseded this save".to_owned())
    );
    assert_eq!(save_comp(Err("disk".to_owned())), Err("disk".to_owned()));
}
