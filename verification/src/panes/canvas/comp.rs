//! Projects as files: the manifest and the bitmaps of a package, as they are
//! written and as they are read.

use crate::json::{int_model, lookup, Json, JsonModel};
use crate::lists::{first_from_found, first_where};
use crate::panes::canvas::codec::{
    bytes_outcome, encode_png, frame_outcome, is_too_large, png_decoded, png_picture, png_size,
    png_written, survives, PROJECT_FILE_LIMIT, PROJECT_PIXEL_LIMIT,
};
use crate::panes::canvas::frame::{frame_bytes, size_fault, Frame, FrameView};
use crate::panes::canvas::opening::{project_opened, project_store, Project, ProjectView};
use crate::panes::canvas::package::{
    bitmap_read, bitmaps_fault, check_document, check_manifest, document_fault, is_heavy,
    is_sorted_set, manifest_fault, plan_save, project_name, project_name_of, read_bitmap,
    PROJECT_BITMAP_LIMIT,
};
use crate::panes::canvas::pane::PaneView;
use crate::panes::canvas::store::{bears, PixelStore, StoreView};
use crate::panes::canvas::tree::{pixel_ids, Document, DocumentView};
use crate::text::{cat, cat3, decimal, to_decimal, verdict};
use vstd::prelude::*;
use vstd::string::*;

verus! {

/// The files of a package: the manifest, and the bitmaps by their identity.
pub struct Package {
    pub manifest: Json,
    pub images: Vec<(u64, Vec<u8>)>,
}

#[verifier::ext_equal]
pub struct PackageView {
    pub manifest: JsonModel,
    pub images: Seq<(u64, Seq<u8>)>,
}

/// The views of the bitmaps of a package.
pub open spec fn image_views(v: Seq<(u64, Vec<u8>)>) -> Seq<(u64, Seq<u8>)> {
    Seq::new(v.len(), |i: int| (v[i].0, v[i].1@))
}

impl View for Package {
    type V = PackageView;

    open spec fn view(&self) -> PackageView {
        PackageView { manifest: self.manifest@, images: image_views(self.images@) }
    }
}

/// A file of a package, as it was found.
pub enum FileRead {
    /// It could not be found.
    Missing(String),
    /// Its size, and its bytes where it could be read.
    Found(u64, Result<Vec<u8>, String>),
}

pub enum FileView {
    Missing(Seq<char>),
    Found(u64, Result<Seq<u8>, Seq<char>>),
}

impl View for FileRead {
    type V = FileView;

    open spec fn view(&self) -> FileView {
        match *self {
            FileRead::Missing(e) => FileView::Missing(e@),
            FileRead::Found(size, read) => FileView::Found(size, bytes_outcome(read)),
        }
    }
}

/// The views of files.
pub open spec fn file_views(v: Seq<FileRead>) -> Seq<FileView> {
    Seq::new(v.len(), |i: int| v[i]@)
}

/// Every bitmap has the bytes of its size.
pub open spec fn is_whole(store: StoreView) -> bool {
    forall|id: u64| (#[trigger] store.frame(id)) is Some ==> store.frame(id)->0.is_whole()
}

/// The manifest of a project; `described` is its document.
pub open spec fn manifest_of(d: DocumentView, name: Seq<char>, described: JsonModel) -> JsonModel {
    JsonModel::Object(
        seq![
            ("concat-project"@, int_model(1)),
            ("name"@, JsonModel::Text(name)),
            ("width"@, int_model(d.width as int)),
            ("height"@, int_model(d.height as int)),
            ("document"@, described),
        ],
    )
}

/// The first `n` bitmaps of a list as files, or why one of them cannot be
/// saved.
pub open spec fn images_saved(store: StoreView, ids: Seq<u64>, n: nat) -> Result<
    Seq<(u64, Seq<u8>)>,
    Seq<char>,
>
    decreases n,
{
    if n == 0 {
        Ok(Seq::empty())
    } else {
        match images_saved(store, ids, (n - 1) as nat) {
            Err(e) => Err(e),
            Ok(images) => match store.frame(ids[n - 1]) {
                None => Err("save: pixels "@ + decimal(ids[n - 1] as nat) + " are gone"@),
                Some(frame) => match png_written(frame.width, frame.height, frame.pixels) {
                    Err(e) => Err(e),
                    Ok(bytes) => Ok(images.push((ids[n - 1], bytes))),
                },
            },
        }
    }
}

/// The package of a document whose bitmaps are `used`.
pub open spec fn packed(
    d: DocumentView,
    store: StoreView,
    name: Seq<char>,
    described: JsonModel,
    used: Seq<u64>,
) -> Result<PackageView, Seq<char>> {
    if used.len() > PROJECT_BITMAP_LIMIT || is_heavy(d, used.len()) {
        Err("save: project pixel data is too large"@)
    } else {
        match images_saved(store, used, used.len()) {
            Err(e) => Err(e),
            Ok(images) => Ok(PackageView { manifest: manifest_of(d, name, described), images }),
        }
    }
}

pub open spec fn package_outcome(r: Result<Package, String>) -> Result<PackageView, Seq<char>> {
    match r {
        Ok(package) => Ok(package@),
        Err(e) => Err(e@),
    }
}

/// What a bitmap of a document is, by what its file holds.
pub open spec fn bitmap_opened(size: (u32, u32), file: FileView, limit: Option<u32>) -> Result<
    FrameView,
    Seq<char>,
> {
    match file {
        FileView::Missing(e) => Err("open: "@ + e),
        FileView::Found(length, read) => if length > PROJECT_FILE_LIMIT {
            Err("open: project bitmap is too large"@)
        } else {
            match read {
                Err(e) => Err("open: "@ + e),
                Ok(bytes) => bitmap_read(
                    size,
                    length,
                    png_decoded(
                        png_size(bytes, PROJECT_PIXEL_LIMIT as usize),
                        png_picture(bytes, PROJECT_PIXEL_LIMIT as usize),
                        limit,
                    ),
                ),
            }
        },
    }
}

/// The first `n` bitmaps of a document, or why one of them cannot be opened.
pub open spec fn bitmaps_opened(
    size: (u32, u32),
    ids: Seq<u64>,
    files: Seq<FileView>,
    limit: Option<u32>,
    n: nat,
) -> Result<Seq<(u64, FrameView)>, Seq<char>>
    decreases n,
{
    if n == 0 {
        Ok(Seq::empty())
    } else {
        match bitmaps_opened(size, ids, files, limit, (n - 1) as nat) {
            Err(e) => Err(e),
            Ok(bitmaps) => match bitmap_opened(size, files[n - 1], limit) {
                Err(e) => Err(e),
                Ok(frame) => Ok(bitmaps.push((ids[n - 1], frame))),
            },
        }
    }
}

/// The project of a package whose bitmaps are `ids`, each with its file.
pub open spec fn comp_loaded(
    manifest: JsonModel,
    path: Seq<char>,
    d: DocumentView,
    ids: Seq<u64>,
    files: Seq<FileView>,
    limit: Option<u32>,
) -> Result<ProjectView, Seq<char>> {
    match bitmaps_opened((d.width, d.height), ids, files, limit, ids.len()) {
        Err(e) => Err(e),
        Ok(bitmaps) => Ok(
            ProjectView { document: d, bitmaps, name: project_name_of(manifest, path) },
        ),
    }
}

pub open spec fn project_outcome(r: Result<Project, String>) -> Result<ProjectView, Seq<char>> {
    match r {
        Ok(project) => Ok(project@),
        Err(e) => Err(e@),
    }
}

/// The files of a package, as they are found again.
pub open spec fn found_again(images: Seq<(u64, Seq<u8>)>) -> Seq<FileView> {
    Seq::new(images.len(), |i: int| FileView::Found(images[i].1.len() as u64, Ok(images[i].1)))
}

/// The identities of the bitmaps of a package.
pub open spec fn image_ids(images: Seq<(u64, Seq<u8>)>) -> Seq<u64> {
    Seq::new(images.len(), |i: int| images[i].0)
}

/// The bitmaps of a list that a store holds.
pub open spec fn stored(store: StoreView, ids: Seq<u64>) -> Seq<(u64, FrameView)> {
    Seq::new(ids.len(), |i: int| (ids[i], store.frame(ids[i])->0))
}

/// Every bitmap of a list has a size.
pub open spec fn all_sized(store: StoreView, ids: Seq<u64>, size: (u32, u32)) -> bool {
    forall|i: int|
        0 <= i < ids.len() ==> store.frame(#[trigger] ids[i]) is Some && store.frame(
            ids[i],
        )->0.width == size.0 && store.frame(ids[i])->0.height == size.1
}

/// No file of a package is larger than one that is read.
pub open spec fn all_small(images: Seq<(u64, Seq<u8>)>) -> bool {
    forall|i: int| 0 <= i < images.len() ==> (#[trigger] images[i]).1.len() <= PROJECT_FILE_LIMIT
}

/// The bitmaps of a package are read as the store holds them, on every device
/// that takes their size.
pub open spec fn comes_back(
    images: Seq<(u64, Seq<u8>)>,
    store: StoreView,
    size: (u32, u32),
) -> bool {
    let ids = image_ids(images);
    all_sized(store, ids, size) && all_small(images) ==> forall|limit: Option<u32>|
        (#[trigger] size_fault(size.0, size.1, limit)) is None ==> bitmaps_opened(
            size,
            ids,
            found_again(images),
            limit,
            ids.len(),
        ) == Ok::<Seq<(u64, FrameView)>, Seq<char>>(stored(store, ids))
}

proof fn saved_so_far(store: StoreView, ids: Seq<u64>, n: nat)
    requires
        n <= ids.len(),
        images_saved(store, ids, n) is Ok,
    ensures
        images_saved(store, ids, n) matches Ok(images) && images.len() == n && forall|i: int|
            0 <= i < n ==> (#[trigger] images[i]).0 == ids[i],
    decreases n,
{
    if n > 0 {
        saved_so_far(store, ids, (n - 1) as nat);
        let before = images_saved(store, ids, (n - 1) as nat)->Ok_0;
        let after = images_saved(store, ids, n)->Ok_0;
        assert forall|i: int| 0 <= i < n implies (#[trigger] after[i]).0 == ids[i] by {
            if i < n - 1 {
                assert(after[i] == before[i]);
            }
        }
    }
}

/// What was written of each bitmap is read as it was.
proof fn opened_again(
    images: Seq<(u64, Seq<u8>)>,
    store: StoreView,
    size: (u32, u32),
    limit: Option<u32>,
    n: nat,
)
    requires
        n <= images.len(),
        is_whole(store),
        frame_bytes(size.0, size.1) <= PROJECT_PIXEL_LIMIT,
        all_sized(store, image_ids(images), size),
        all_small(images),
        size_fault(size.0, size.1, limit) is None,
        forall|i: int|
            0 <= i < images.len() ==> survives(
                (#[trigger] images[i]).1,
                store.frame(images[i].0)->0,
            ),
    ensures
        bitmaps_opened(size, image_ids(images), found_again(images), limit, n) == Ok::<
            Seq<(u64, FrameView)>,
            Seq<char>,
        >(stored(store, image_ids(images)).take(n as int)),
    decreases n,
{
    let ids = image_ids(images);
    let all = stored(store, ids);
    if n == 0 {
        assert(all.take(0) =~= Seq::empty());
    } else {
        opened_again(images, store, size, limit, (n - 1) as nat);
        let frame = store.frame(ids[n - 1])->0;
        let bytes = images[n - 1].1;
        assert(ids[n - 1] == images[n - 1].0);
        assert(survives(bytes, frame));
        assert(size_fault(frame.width, frame.height, limit) is None);
        assert(bitmap_opened(size, found_again(images)[n - 1], limit) == Ok::<
            FrameView,
            Seq<char>,
        >(frame));
        assert(all.take(n as int) =~= all.take(n - 1).push((ids[n - 1], frame)));
    }
}

/// The manifest of a project.
fn write_manifest(document: &Document, name: &str, described: Json) -> (r: Json)
    ensures
        r@ == manifest_of(document@, name@, described@),
{
    let fields: Vec<(String, Json)> = vec![
        ("concat-project".to_owned(), Json::from_u64(1)),
        ("name".to_owned(), Json::from_text(name)),
        ("width".to_owned(), Json::from_u64(document.width as u64)),
        ("height".to_owned(), Json::from_u64(document.height as u64)),
        ("document".to_owned(), described),
    ];
    let r: Json = Json::from_members(fields);
    proof {
        assert(r@->Object_0 =~= manifest_of(document@, name@, described@)->Object_0);
    }
    r
}

/// The files of a package that a document is saved as: the bitmaps that it
/// uses, each once, and a manifest. What is written is read back as it was.
pub fn pack_comp(document: &Document, store: &PixelStore, name: &str, described: Json) -> (r: Result<
    Package,
    String,
>)
    requires
        is_whole(store@),
    ensures
        exists|used: Seq<u64>| #[trigger]
            is_sorted_set(used, pixel_ids(document@.children)) && package_outcome(r) == packed(
                document@,
                store@,
                name@,
                described@,
                used,
            ),
        r matches Ok(package) ==> comes_back(
            package@.images,
            store@,
            (document.width, document.height),
        ),
{
    let used: Vec<u64> = match plan_save(document) {
        Ok(used) => used,
        Err(e) => {
            return Err(e);
        },
    };
    let mut images: Vec<(u64, Vec<u8>)> = Vec::new();
    let mut i: usize = 0;
    proof {
        assert(image_views(images@) =~= Seq::empty());
    }
    while i < used.len()
        invariant
            i <= used.len(),
            is_whole(store@),
            is_sorted_set(used@, pixel_ids(document@.children)),
            used@.len() <= PROJECT_BITMAP_LIMIT,
            !is_heavy(document@, used@.len()),
            images_saved(store@, used@, i as nat) == Ok::<Seq<(u64, Seq<u8>)>, Seq<char>>(
                image_views(images@),
            ),
            images@.len() == i,
            forall|j: int|
                0 <= j < i ==> (#[trigger] images@[j]).0 == used@[j] && survives(
                    images@[j].1@,
                    store@.frame(used@[j])->0,
                ),
        decreases used.len() - i,
    {
        let id: u64 = used[i];
        let ghost before = images@;
        let frame: &Frame = match store.get(id) {
            Some(frame) => frame,
            None => {
                let number: String = to_decimal(id);
                proof {
                    failed_there(store@, used@, (i + 1) as nat);
                }
                return Err(cat3("save: pixels ", number.as_str(), " are gone"));
            },
        };
        let bytes: Vec<u8> = match encode_png(frame) {
            Ok(bytes) => bytes,
            Err(e) => {
                proof {
                    failed_there(store@, used@, (i + 1) as nat);
                }
                return Err(e);
            },
        };
        let ghost written = bytes@;
        images.push((id, bytes));
        i = i + 1;
        proof {
            assert(image_views(images@) =~= image_views(before).push((id, written)));
        }
    }
    let manifest: Json = write_manifest(document, name, described);
    proof {
        let all = image_views(images@);
        let size = (document.width, document.height);
        assert(image_ids(all) =~= used@);
        if all_sized(store@, image_ids(all), size) && all_small(all) {
            assert forall|limit: Option<u32>|
                (#[trigger] size_fault(size.0, size.1, limit)) is None implies bitmaps_opened(
                size,
                image_ids(all),
                found_again(all),
                limit,
                used@.len(),
            ) == Ok::<Seq<(u64, FrameView)>, Seq<char>>(stored(store@, used@)) by {
                if used@.len() > 0 {
                    let bytes = frame_bytes(size.0, size.1);
                    let count = used@.len();
                    assert(bytes <= PROJECT_PIXEL_LIMIT) by {
                        let held = if bytes <= usize::MAX {
                            bytes
                        } else {
                            usize::MAX as nat
                        };
                        assert(held <= held * count) by (nonlinear_arith)
                            requires
                                count >= 1,
                        ;
                    }
                    opened_again(all, store@, size, limit, all.len());
                    assert(stored(store@, used@).take(used@.len() as int) =~= stored(
                        store@,
                        used@,
                    ));
                } else {
                    assert(stored(store@, used@) =~= Seq::empty());
                }
            }
        }
    }
    Ok(Package { manifest, images })
}

/// Where a bitmap cannot be saved, none of the list is.
proof fn failed_there(store: StoreView, ids: Seq<u64>, n: nat)
    requires
        n <= ids.len(),
        images_saved(store, ids, n) is Err,
    ensures
        images_saved(store, ids, ids.len()) == images_saved(store, ids, n),
    decreases ids.len() - n,
{
    if n < ids.len() {
        failed_there(store, ids, n + 1);
    }
}

/// Where a bitmap cannot be opened, none of the list is.
proof fn stopped_there(
    size: (u32, u32),
    ids: Seq<u64>,
    files: Seq<FileView>,
    limit: Option<u32>,
    n: nat,
)
    requires
        n <= ids.len(),
        bitmaps_opened(size, ids, files, limit, n) is Err,
    ensures
        bitmaps_opened(size, ids, files, limit, ids.len()) == bitmaps_opened(
            size,
            ids,
            files,
            limit,
            n,
        ),
    decreases ids.len() - n,
{
    if n < ids.len() {
        stopped_there(size, ids, files, limit, n + 1);
    }
}

/// Reads a bitmap of a document from its file.
fn open_bitmap(size: (u32, u32), file: &FileRead, limit: Option<u32>) -> (r: Result<Frame, String>)
    ensures
        frame_outcome(r) == bitmap_opened(size, file@, limit),
{
    match file {
        FileRead::Missing(e) => Err(cat("open: ", e.as_str())),
        FileRead::Found(length, read) => {
            if is_too_large(*length) {
                return Err("open: project bitmap is too large".to_owned());
            }
            match read {
                Err(e) => Err(cat("open: ", e.as_str())),
                Ok(bytes) => read_bitmap(size, *length, bytes, limit),
            }
        },
    }
}

fn read_comp(
    manifest: &Json,
    path: &str,
    document: Document,
    ids: &Vec<u64>,
    files: &Vec<FileRead>,
    limit: Option<u32>,
) -> (r: Result<Project, String>)
    requires
        ids@.len() == files@.len(),
    ensures
        project_outcome(r) == comp_loaded(
            manifest@,
            path@,
            document@,
            ids@,
            file_views(files@),
            limit,
        ),
{
    let size: (u32, u32) = (document.width, document.height);
    let ghost all = file_views(files@);
    let mut bitmaps: Vec<(u64, Frame)> = Vec::new();
    let ghost mut seen: Seq<(u64, FrameView)> = Seq::empty();
    let mut i: usize = 0;
    while i < ids.len()
        invariant
            i <= ids.len(),
            ids@.len() == files@.len(),
            size == (document@.width, document@.height),
            all == file_views(files@),
            bitmaps_opened(size, ids@, all, limit, i as nat) == Ok::<
                Seq<(u64, FrameView)>,
                Seq<char>,
            >(seen),
            bitmaps@.len() == i,
            seen.len() == i,
            forall|j: int|
                0 <= j < i ==> (#[trigger] seen[j]) == (bitmaps@[j].0, bitmaps@[j].1@),
        decreases ids.len() - i,
    {
        proof {
            assert(all[i as int] == files@[i as int]@);
        }
        match open_bitmap(size, &files[i], limit) {
            Ok(frame) => {
                proof {
                    seen = seen.push((ids@[i as int], frame@));
                }
                bitmaps.push((ids[i], frame));
            },
            Err(e) => {
                proof {
                    stopped_there(size, ids@, all, limit, (i + 1) as nat);
                }
                return Err(e);
            },
        }
        i = i + 1;
    }
    let name: String = project_name(manifest, path);
    let project: Project = Project { document, bitmaps, name };
    proof {
        assert(project@.bitmaps =~= seen);
    }
    Ok(project)
}

/// The project of a package, from its manifest, its document, and the files of
/// the bitmaps that the document uses, or why it is not opened. `validity` says
/// whether the tree of the document is valid, `limit` is that of the device.
pub fn load_comp(
    manifest: &Json,
    path: &str,
    document: Document,
    validity: Result<(), String>,
    files: &Vec<FileRead>,
    limit: Option<u32>,
) -> (r: Result<Project, String>)
    requires
        manifest_fault(manifest@) is None && document_fault(
            document@,
            limit,
            verdict(validity),
        ) is None ==> forall|used: Seq<u64>|
            #[trigger] is_sorted_set(used, pixel_ids(document@.children)) && bitmaps_fault(
                document@,
                used.len(),
            ) is None ==> used.len() == files@.len(),
    ensures
        match (manifest_fault(manifest@), document_fault(document@, limit, verdict(validity))) {
            (Some(message), _) => r matches Err(e) && e@ == message,
            (None, Some(message)) => r matches Err(e) && e@ == message,
            (None, None) => exists|used: Seq<u64>|
                #[trigger] is_sorted_set(used, pixel_ids(document@.children)) && project_outcome(r)
                    == match bitmaps_fault(document@, used.len()) {
                    Some(message) => Err(message),
                    None => comp_loaded(
                        manifest@,
                        path@,
                        document@,
                        used,
                        file_views(files@),
                        limit,
                    ),
                },
        },
{
    if let Err(e) = check_manifest(manifest) {
        return Err(e);
    }
    match check_document(&document, limit, validity) {
        Err(e) => Err(e),
        Ok(ids) => read_comp(manifest, path, document, &ids, files, limit),
    }
}

/// The bitmaps of a project are found under their identities.
proof fn restored_bitmaps_are_found(bitmaps: Seq<(u64, FrameView)>, version: u64, at: int)
    requires
        0 <= at < bitmaps.len(),
        forall|i: int, j: int|
            0 <= i < j < bitmaps.len() ==> (#[trigger] bitmaps[i]).0 != (#[trigger] bitmaps[j]).0,
    ensures
        project_store(bitmaps, version).frame(bitmaps[at].0) == Some(bitmaps[at].1),
{
    let store = project_store(bitmaps, version);
    stored_in_order(bitmaps, version);
    let id = bitmaps[at].0;
    first_from_found(store.bitmaps, bears(id), 0);
    assert(bears(id)(store.bitmaps[at]));
    match first_where(store.bitmaps, bears(id)) {
        Some(i) => {
            assert(store.bitmaps[i].id == bitmaps[i].0);
            if i != at {
                assert(bitmaps[i].0 != bitmaps[at].0);
            }
        },
        None => {},
    }
}

/// The store of a project holds its bitmaps in their order.
proof fn stored_in_order(bitmaps: Seq<(u64, FrameView)>, version: u64)
    ensures
        project_store(bitmaps, version).bitmaps.len() == bitmaps.len(),
        forall|i: int|
            0 <= i < bitmaps.len() ==> (#[trigger] project_store(bitmaps, version).bitmaps[i]).id
                == bitmaps[i].0 && project_store(bitmaps, version).bitmaps[i].frame
                == bitmaps[i].1,
    decreases bitmaps.len(),
{
    if bitmaps.len() > 0 {
        stored_in_order(bitmaps.drop_last(), version);
    }
}

/// New pixels of a project that was opened get an identity that none of its
/// bitmaps has, unless the identities have run out.
pub proof fn new_pixels_get_new_identities(
    bitmaps: Seq<(u64, FrameView)>,
    version: u64,
    at: int,
)
    requires
        0 <= at < bitmaps.len(),
        forall|i: int| 0 <= i < bitmaps.len() ==> (#[trigger] bitmaps[i]).0 < u64::MAX,
    ensures
        bitmaps[at].0 < project_store(bitmaps, version).next,
    decreases bitmaps.len(),
{
    let before = bitmaps.drop_last();
    if at < before.len() {
        new_pixels_get_new_identities(before, version, at);
    }
}

/// A project that was saved opens as it was: the same document, the same
/// pixels, and the same name, on every device that takes its size. The title is
/// the one that it was saved under, whatever the path.
pub proof fn saved_projects_come_back(
    p: PaneView,
    d: DocumentView,
    store: StoreView,
    name: Seq<char>,
    described: JsonModel,
    used: Seq<u64>,
    package: PackageView,
    path: Seq<char>,
    limit: Option<u32>,
    id: u64,
)
    requires
        is_sorted_set(used, pixel_ids(d.children)),
        packed(d, store, name, described, used) == Ok::<PackageView, Seq<char>>(package),
        comes_back(package.images, store, (d.width, d.height)),
        all_sized(store, used, (d.width, d.height)),
        all_small(package.images),
        size_fault(d.width, d.height, limit) is None,
        name.len() > 0,
        pixel_ids(d.children).contains(id),
    ensures
        manifest_fault(package.manifest) is None,
        comp_loaded(package.manifest, path, d, used, found_again(package.images), limit) matches Ok(
            project,
        ) && ({
            let opened = project_opened(p, path, project);
            &&& opened.document == Some(d)
            &&& opened.name == name
            &&& opened.store.frame(id) == store.frame(id)
        }),
{
    reveal_strlit("concat-project");
    reveal_strlit("name");
    reveal_strlit("width");
    reveal_strlit("height");
    reveal_strlit("document");
    reveal_strlit("");
    reveal_with_fuel(lookup, 6);
    let entries = package.manifest->Object_0;
    assert(entries.drop_first()[0] == entries[1]);
    assert(entries.drop_first().drop_first()[0] == entries[2]);
    assert(entries.drop_first().drop_first().drop_first()[0] == entries[3]);
    assert(entries.drop_first().drop_first().drop_first().drop_first()[0] == entries[4]);
    assert("concat-project"@.len() == 14 && "name"@.len() == 4 && "width"@.len() == 5
        && "height"@.len() == 6 && "document"@.len() == 8);
    saved_so_far(store, used, used.len());
    assert(image_ids(package.images) =~= used);
    let all = stored(store, used);
    assert(used.contains(id));
    let at = choose|i: int| 0 <= i < used.len() && used[i] == id;
    assert forall|i: int, j: int| 0 <= i < j < all.len() implies (#[trigger] all[i]).0 != (
    #[trigger] all[j]).0 by {
        assert(used[i] < used[j]);
    }
    restored_bitmaps_are_found(all, p.versions, at);
}

} // verus!
