//! Project packages: what may be saved and opened, and the names of files.

use crate::collections::TextMap;
use crate::json::{Json, JsonModel};
use crate::panes::canvas::codec::{
    decode_png, frame_outcome, is_too_large, png_decoded, png_picture, png_size, PROJECT_FILE_LIMIT,
    PROJECT_PIXEL_LIMIT,
};
use crate::panes::canvas::frame::{
    checked_frame_bytes, frame_bytes, size_fault, validate_canvas_dimensions, Frame, FrameView,
};
use crate::panes::canvas::store::{after, next_number};
use crate::panes::canvas::tree::{collect_pixels, pixel_ids, Document, DocumentView};
use crate::paths::{file_stem, join_path, joined_path, parent, parent_of, stem_of};
use crate::text::{
    cat, cat3, chars_of, control, decimal, ends_with, find_last, has_suffix, is_control, last_of,
    same, text_of, to_decimal, verdict, views,
};
use vstd::prelude::*;
use vstd::string::*;

verus! {

/// How many bitmaps a project may have.
pub const PROJECT_BITMAP_LIMIT: usize = 1_000;

/// How many projects are remembered.
pub const RECENT_LIMIT: usize = 100;

/// Whether a list holds the numbers of another, each once and in order.
pub open spec fn is_sorted_set(sorted: Seq<u64>, ids: Seq<u64>) -> bool {
    &&& forall|i: int, j: int| 0 <= i < j < sorted.len() ==> sorted[i] < sorted[j]
    &&& forall|id: u64| sorted.contains(id) <==> ids.contains(id)
}

/// The numbers of a list, each once and in order.
pub fn sorted_ids(ids: &Vec<u64>) -> (r: Vec<u64>)
    ensures
        is_sorted_set(r@, ids@),
{
    let mut out: Vec<u64> = Vec::new();
    let mut i: usize = 0;
    proof {
        assert(ids@.take(0) =~= Seq::empty());
    }
    while i < ids.len()
        invariant
            i <= ids.len(),
            is_sorted_set(out@, ids@.take(i as int)),
        decreases ids.len() - i,
    {
        let id: u64 = ids[i];
        let mut at: usize = 0;
        while at < out.len() && out[at] < id
            invariant
                at <= out.len(),
                forall|j: int| 0 <= j < at ==> out@[j] < id,
            decreases out.len() - at,
        {
            at = at + 1;
        }
        let ghost before = out@;
        let ghost head = ids@.take(i as int);
        let ghost next = ids@.take(i + 1);
        proof {
            assert(next =~= head.push(id));
            assert forall|x: u64| next.contains(x) <==> (head.contains(x) || x == id) by {
                if head.contains(x) {
                    let k = choose|k: int| 0 <= k < head.len() && head[k] == x;
                    assert(next[k] == x);
                }
                if x == id {
                    assert(next[i as int] == x);
                }
            }
        }
        if at >= out.len() || out[at] != id {
            out.insert(at, id);
            proof {
                let after = out@;
                assert(after =~= before.insert(at as int, id));
                assert forall|a: int, b: int| 0 <= a < b < after.len() implies after[a]
                    < after[b] by {
                    let p = if a < at {
                        a
                    } else {
                        a - 1
                    };
                    let q = if b < at {
                        b
                    } else {
                        b - 1
                    };
                    if a == at {
                        assert(after[b] == before[b - 1]);
                        assert(before[at as int] > id);
                        assert(at < b - 1 ==> before[at as int] < before[b - 1]);
                    } else if b == at {
                        assert(after[a] == before[a]);
                    } else {
                        assert(after[a] == before[p] && after[b] == before[q]);
                    }
                }
                assert forall|x: u64| after.contains(x) <==> next.contains(x) by {
                    if after.contains(x) {
                        let k = choose|k: int| 0 <= k < after.len() && after[k] == x;
                        if k != at {
                            let m = if k < at {
                                k
                            } else {
                                k - 1
                            };
                            assert(before[m] == x);
                            assert(before.contains(x));
                        }
                    }
                    if before.contains(x) {
                        let k = choose|k: int| 0 <= k < before.len() && before[k] == x;
                        let m = if k < at {
                            k
                        } else {
                            k + 1
                        };
                        assert(after[m] == x);
                    }
                    if x == id {
                        assert(after[at as int] == x);
                    }
                }
            }
        } else {
            proof {
                assert(before[at as int] == id);
                assert(before.contains(id));
                assert forall|x: u64| before.contains(x) <==> next.contains(x) by {}
            }
        }
        i = i + 1;
    }
    proof {
        assert(ids@.take(ids@.len() as int) =~= ids@);
    }
    out
}

/// A list of numbers has one such order only.
pub proof fn sorted_sets_are_unique(a: Seq<u64>, b: Seq<u64>, ids: Seq<u64>)
    requires
        is_sorted_set(a, ids),
        is_sorted_set(b, ids),
    ensures
        a == b,
{
    assert forall|x: u64| a.contains(x) <==> b.contains(x) by {}
    sorted_equal(a, b, a.len() as int);
    sorted_equal(b, a, b.len() as int);
    assert(a.len() == b.len());
    assert(a =~= b);
}

/// Whatever stands in front of one stands in front of the other.
proof fn sorted_equal(a: Seq<u64>, b: Seq<u64>, n: int)
    requires
        0 <= n <= a.len(),
        forall|i: int, j: int| 0 <= i < j < a.len() ==> a[i] < a[j],
        forall|i: int, j: int| 0 <= i < j < b.len() ==> b[i] < b[j],
        forall|x: u64| a.contains(x) <==> b.contains(x),
    ensures
        n <= b.len(),
        forall|i: int| 0 <= i < n ==> a[i] == b[i],
    decreases n,
{
    if n > 0 {
        sorted_equal(a, b, n - 1);
        let x = a[n - 1];
        assert(a.contains(x));
        assert(b.contains(x));
        let k = choose|k: int| 0 <= k < b.len() && b[k] == x;
        if k < n - 1 {
            assert(a[k] == b[k]);
            assert(a[k] < a[n - 1]);
        }
        if k > n - 1 {
            let y = b[n - 1];
            assert(b.contains(y));
            assert(a.contains(y));
            let m = choose|m: int| 0 <= m < a.len() && a[m] == y;
            assert(y < x);
            if m < n - 1 {
                assert(b[m] == y);
                assert(b[m] < b[n - 1]);
            } else if m > n - 1 {
                assert(a[n - 1] < a[m]);
            }
        }
    }
}

/// Whether the bitmaps of a document are too large together.
pub open spec fn is_heavy(d: DocumentView, bitmaps: nat) -> bool {
    let bytes = if frame_bytes(d.width, d.height) <= usize::MAX {
        frame_bytes(d.width, d.height)
    } else {
        usize::MAX as nat
    };
    bytes * bitmaps > PROJECT_PIXEL_LIMIT
}

fn weighs(document: &Document, bitmaps: usize) -> (r: bool)
    ensures
        r == is_heavy(document@, bitmaps as nat),
{
    let bytes: usize = match checked_frame_bytes(document.width, document.height) {
        Some(n) => n,
        None => usize::MAX,
    };
    match bytes.checked_mul(bitmaps) {
        Some(n) => n as u64 > PROJECT_PIXEL_LIMIT,
        None => true,
    }
}

/// The bitmaps that are saved with a document, or why it cannot be saved.
pub fn plan_save(document: &Document) -> (r: Result<Vec<u64>, String>)
    ensures
        ({
            let ids = pixel_ids(document@.children);
            match r {
                Ok(used) => is_sorted_set(used@, ids) && used@.len() <= PROJECT_BITMAP_LIMIT
                    && !is_heavy(document@, used@.len()),
                Err(message) => message@ == "save: project pixel data is too large"@ && exists|
                    used: Seq<u64>,
                |
                    #[trigger] is_sorted_set(used, ids) && (used.len() > PROJECT_BITMAP_LIMIT
                        || is_heavy(document@, used.len())),
            }
        }),
{
    let used: Vec<u64> = sorted_ids(&collect_pixels(&document.children));
    proof {
        assert(is_sorted_set(used@, pixel_ids(document@.children)));
    }
    if used.len() > PROJECT_BITMAP_LIMIT || weighs(document, used.len()) {
        return Err("save: project pixel data is too large".to_owned());
    }
    Ok(used)
}

/// Why a manifest is none of a project.
pub open spec fn manifest_fault(manifest: JsonModel) -> Option<Seq<char>> {
    let mark = match manifest.get("concat-project"@) {
        Some(v) => v.as_u64(),
        None => None,
    };
    if mark != Some(1u64) {
        Some("open: not a concat project"@)
    } else if manifest.get("document"@) is None {
        Some("open: no document"@)
    } else {
        None
    }
}

/// Checks that a manifest is that of a project.
pub fn check_manifest(manifest: &Json) -> (r: Result<(), String>)
    ensures
        verdict(r) == match manifest_fault(manifest@) {
            Some(message) => Err(message),
            None => Ok(()),
        },
{
    let mark: Option<u64> = match manifest.get("concat-project") {
        Some(v) => v.as_u64(),
        None => None,
    };
    let known: bool = match mark {
        Some(n) => n == 1,
        None => false,
    };
    if !known {
        return Err("open: not a concat project".to_owned());
    }
    if manifest.get("document").is_none() {
        return Err("open: no document".to_owned());
    }
    Ok(())
}

/// Checks the size of the file of a manifest.
pub fn check_manifest_size(bytes: u64) -> (r: Result<(), String>)
    ensures
        verdict(r) == if bytes > PROJECT_FILE_LIMIT {
            Err::<(), Seq<char>>("open: manifest is too large"@)
        } else {
            Ok(())
        },
{
    if is_too_large(bytes) {
        return Err("open: manifest is too large".to_owned());
    }
    Ok(())
}

/// Why a document cannot be opened, apart from its bitmaps; `validity` is what
/// is said of its tree.
pub open spec fn document_fault(
    d: DocumentView,
    limit: Option<u32>,
    validity: Result<(), Seq<char>>,
) -> Option<Seq<char>> {
    if d.width == 0 || d.height == 0 {
        Some("open: empty canvas"@)
    } else {
        match size_fault(d.width, d.height, limit) {
            Some(message) => Some("open: "@ + message),
            None => match validity {
                Err(message) => Some("open: "@ + message),
                Ok(()) => None,
            },
        }
    }
}

/// Why the bitmaps of a document cannot be opened.
pub open spec fn bitmaps_fault(d: DocumentView, bitmaps: nat) -> Option<Seq<char>> {
    if bitmaps > PROJECT_BITMAP_LIMIT {
        Some("open: too many project bitmaps"@)
    } else if frame_bytes(d.width, d.height) == 0 || is_heavy(d, bitmaps) {
        Some("open: project pixel data is too large"@)
    } else {
        None
    }
}

/// The bitmaps that a document is opened with, or why it is not.
pub fn check_document(document: &Document, limit: Option<u32>, validity: Result<(), String>) -> (r:
    Result<Vec<u64>, String>)
    ensures
        match document_fault(document@, limit, verdict(validity)) {
            Some(message) => r matches Err(e) && e@ == message,
            None => exists|used: Seq<u64>|
                #[trigger] is_sorted_set(used, pixel_ids(document@.children)) && match (
                    r,
                    bitmaps_fault(document@, used.len()),
                ) {
                    (Ok(ids), None) => ids@ == used,
                    (Err(e), Some(message)) => e@ == message,
                    _ => false,
                },
        },
{
    if document.width == 0 || document.height == 0 {
        return Err("open: empty canvas".to_owned());
    }
    if let Err(message) = validate_canvas_dimensions(document.width, document.height, limit) {
        return Err(cat("open: ", message.as_str()));
    }
    if let Err(message) = validity {
        return Err(cat("open: ", message.as_str()));
    }
    let used: Vec<u64> = sorted_ids(&collect_pixels(&document.children));
    proof {
        assert(is_sorted_set(used@, pixel_ids(document@.children)));
    }
    if used.len() > PROJECT_BITMAP_LIMIT {
        return Err("open: too many project bitmaps".to_owned());
    }
    let empty: bool = match checked_frame_bytes(document.width, document.height) {
        Some(n) => n == 0,
        None => false,
    };
    if empty || weighs(document, used.len()) {
        return Err("open: project pixel data is too large".to_owned());
    }
    Ok(used)
}

/// What a bitmap of a document is, by what its bytes decode to.
pub open spec fn bitmap_read(
    d: (u32, u32),
    bytes: u64,
    decoded: Result<(u32, u32, Seq<u8>), Seq<char>>,
) -> Result<FrameView, Seq<char>> {
    if bytes > PROJECT_FILE_LIMIT {
        Err("open: project bitmap is too large"@)
    } else {
        match decoded {
            Err(message) => Err(message),
            Ok((width, height, pixels)) => if width != d.0 || height != d.1 {
                Err("open: project bitmap dimensions do not match canvas"@)
            } else if width == 0 || height == 0 || pixels.len() != frame_bytes(width, height) {
                Err("open: empty image"@)
            } else {
                Ok(FrameView { width, height, pixels })
            },
        }
    }
}

/// What a bitmap of a document is, once it is decoded.
pub fn accept_bitmap(
    size: (u32, u32),
    bytes: u64,
    decoded: Result<(u32, u32, Vec<u8>), String>,
) -> (r: Result<Frame, String>)
    ensures
        frame_outcome(r) == bitmap_read(
            size,
            bytes,
            crate::panes::canvas::codec::pixels_outcome(decoded),
        ),
{
    if is_too_large(bytes) {
        return Err("open: project bitmap is too large".to_owned());
    }
    match decoded {
        Err(message) => Err(message),
        Ok((width, height, pixels)) => {
            if width != size.0 || height != size.1 {
                return Err("open: project bitmap dimensions do not match canvas".to_owned());
            }
            match Frame::from_rgba(width, height, pixels) {
                Some(frame) => Ok(frame),
                None => Err("open: empty image".to_owned()),
            }
        },
    }
}

/// Reads a bitmap of a document from the bytes of its file.
pub fn read_bitmap(size: (u32, u32), file: u64, bytes: &Vec<u8>, limit: Option<u32>) -> (r: Result<
    Frame,
    String,
>)
    ensures
        frame_outcome(r) == bitmap_read(
            size,
            file,
            png_decoded(
                png_size(bytes@, PROJECT_PIXEL_LIMIT as usize),
                png_picture(bytes@, PROJECT_PIXEL_LIMIT as usize),
                limit,
            ),
        ),
{
    accept_bitmap(size, file, decode_png(bytes, limit))
}

/// The name of a project: the one in its manifest, or that of its file.
pub open spec fn project_name_of(manifest: JsonModel, path: Seq<char>) -> Seq<char> {
    let told = manifest.text("name"@);
    if told != ""@ {
        told
    } else {
        match stem_of(path) {
            Some(stem) => stem,
            None => "画布项目"@,
        }
    }
}

/// The name of a project.
pub fn project_name(manifest: &Json, path: &str) -> (r: String)
    ensures
        r@ == project_name_of(manifest@, path@),
{
    let told: String = manifest.text("name");
    if !same(told.as_str(), "") {
        return told;
    }
    match file_stem(path) {
        Some(stem) => stem,
        None => "画布项目".to_owned(),
    }
}

/// The paths other than one.
pub open spec fn is_other(path: Seq<char>) -> spec_fn(Seq<char>) -> bool {
    |p: Seq<char>| p != path
}

/// The projects that are remembered after one of them was used: it comes
/// first, and once.
pub open spec fn remembered(paths: Seq<Seq<char>>, path: Seq<char>) -> Seq<Seq<char>> {
    let others = seq![path] + crate::lists::kept(paths, is_other(path));
    if others.len() > RECENT_LIMIT {
        others.take(RECENT_LIMIT as int)
    } else {
        others
    }
}

/// Puts a project first among those that are remembered.
pub fn remember_canvas_project(paths: &Vec<String>, path: &str) -> (r: Vec<String>)
    ensures
        views(r@) == remembered(views(paths@), path@),
{
    let ghost all = views(paths@);
    let ghost p = is_other(path@);
    let mut out: Vec<String> = Vec::new();
    out.push(path.to_owned());
    let mut i: usize = 0;
    proof {
        crate::lists::kept_all(all, p);
        assert(views(out@) =~= seq![path@] + Seq::<Seq<char>>::empty());
    }
    while i < paths.len()
        invariant
            i <= paths.len(),
            all == views(paths@),
            p == is_other(path@),
            views(out@) == seq![path@] + crate::lists::kept(all.take(i as int), p),
        decreases paths.len() - i,
    {
        proof {
            crate::lists::kept_step(all, p, i as int);
            assert(all[i as int] == paths@[i as int]@);
        }
        if !same(paths[i].as_str(), path) {
            let ghost before = out@;
            let copy: String = paths[i].clone();
            out.push(copy);
            proof {
                assert(views(out@) =~= views(before).push(paths@[i as int]@));
                assert(views(before).push(paths@[i as int]@) =~= seq![path@] + crate::lists::kept(
                    all.take(i as int),
                    p,
                ).push(paths@[i as int]@));
            }
        }
        i = i + 1;
    }
    proof {
        crate::lists::kept_all(all, p);
    }
    if out.len() > RECENT_LIMIT {
        let ghost before = out@;
        out.truncate(RECENT_LIMIT);
        proof {
            assert(views(out@) =~= views(before).take(RECENT_LIMIT as int));
        }
    }
    out
}

/// A name without what stands behind its last dot.
pub open spec fn bare_name(name: Seq<char>) -> Seq<char> {
    match last_of(name, '.') {
        Some(i) => name.take(i),
        None => name,
    }
}

/// A name without what stands behind its last dot.
pub fn to_bare_name(name: &str) -> (r: String)
    ensures
        r@ == bare_name(name@),
{
    let v: Vec<char> = chars_of(name);
    proof {
        assert(v@.take(v@.len() as int) =~= v@);
    }
    match find_last(&v, v.len(), '.') {
        Some(i) => {
            let r: String = text_of(&v, 0, i);
            proof {
                assert(r@ =~= name@.take(i as int));
            }
            r
        },
        None => name.to_owned(),
    }
}

/// The name that a canvas is exported under.
pub fn export_name(name: &str) -> (r: String)
    ensures
        r@ == bare_name(name@) + ".png"@,
{
    cat(to_bare_name(name).as_str(), ".png")
}

/// The name that a canvas is saved under.
pub fn save_name(name: &str) -> (r: String)
    ensures
        r@ == bare_name(name@) + ".comp"@,
{
    cat(to_bare_name(name).as_str(), ".comp")
}

/// `s` without `p` at its end, however often it stands there.
pub open spec fn trim_end_text(s: Seq<char>, p: Seq<char>) -> Seq<char>
    decreases s.len(),
{
    if p.len() > 0 && has_suffix(s, p) {
        trim_end_text(s.take(s.len() - p.len()), p)
    } else {
        s
    }
}

/// A character that may stand in the name of a file.
pub open spec fn safe_char(c: char) -> char {
    if c == '/' || c == '\\' || control(c) {
        '_'
    } else {
        c
    }
}

/// A text whose characters may stand in the name of a file.
pub open spec fn safe_text(s: Seq<char>) -> Seq<char> {
    Seq::new(s.len(), |i: int| safe_char(s[i]))
}

/// The file of an export in the library; `id` tells it from others.
pub fn library_export_name(name: &str, id: &str) -> (r: String)
    ensures
        r@ == id@ + "-"@ + safe_text(trim_end_text(name@, ".png"@)) + ".png"@,
{
    let mut rest: String = name.to_owned();
    let mut done: bool = false;
    proof {
        reveal_strlit(".png");
    }
    while !done
        invariant
            ".png"@.len() == 4,
            trim_end_text(name@, ".png"@) == trim_end_text(rest@, ".png"@),
            done ==> !has_suffix(rest@, ".png"@),
        decreases rest@.len(), if done {
            0int
        } else {
            1int
        },
    {
        if ends_with(rest.as_str(), ".png") {
            let v: Vec<char> = chars_of(rest.as_str());
            let shorter: String = text_of(&v, 0, v.len() - 4);
            proof {
                assert(shorter@ =~= rest@.take(rest@.len() - 4));
            }
            rest = shorter;
        } else {
            done = true;
        }
    }
    let v: Vec<char> = chars_of(rest.as_str());
    let mut safe: String = String::new();
    let mut i: usize = 0;
    proof {
        assert(safe@ =~= safe_text(v@.take(0)));
    }
    while i < v.len()
        invariant
            i <= v.len(),
            safe@ == safe_text(v@.take(i as int)),
        decreases v.len() - i,
    {
        let c: char = if v[i] == '/' || v[i] == '\\' || is_control(v[i]) {
            '_'
        } else {
            v[i]
        };
        safe.push(c);
        proof {
            assert(safe@ =~= safe_text(v@.take(i + 1)));
        }
        i = i + 1;
    }
    proof {
        assert(v@.take(v@.len() as int) =~= v@);
    }
    cat(cat3(id, "-", safe.as_str()).as_str(), ".png")
}

/// A path beside another: the same name with another extension.
pub open spec fn sibling_of(path: Seq<char>, extension: Seq<char>) -> Seq<char> {
    match stem_of(path) {
        Some(stem) => joined_path(parent_of(path), stem + "."@ + extension),
        None => path,
    }
}

/// The extension of a file beside another that a process makes.
pub open spec fn own_extension(kind: Seq<char>, process: u32, number: u64) -> Seq<char> {
    kind + "-"@ + decimal(process as nat) + "-"@ + decimal(number as nat)
}

/// A path beside another that a process makes its own by a number.
pub fn numbered_sibling(path: &str, kind: &str, process: u32, number: u64) -> (r: String)
    ensures
        r@ == sibling_of(path@, own_extension(kind@, process, number)),
{
    let head: String = cat3(kind, "-", to_decimal(process as u64).as_str());
    let extension: String = cat3(head.as_str(), "-", to_decimal(number).as_str());
    match file_stem(path) {
        Some(stem) => join_path(
            parent(path).as_str(),
            cat3(stem.as_str(), ".", extension.as_str()).as_str(),
        ),
        None => path.to_owned(),
    }
}

/// Where a package is written before it takes its place.
pub fn sibling_temp(path: &str, process: u32, number: u64) -> (r: String)
    ensures
        r@ == sibling_of(path@, own_extension("tmp"@, process, number)),
{
    numbered_sibling(path, "tmp", process, number)
}

/// How the replacement of a package went.
pub struct Replacement {
    /// A package was there before.
    pub previous: bool,
    /// It stepped aside.
    pub aside: Result<(), String>,
    /// The new one took its place.
    pub placed: Result<(), String>,
    /// The old one was dropped.
    pub dropped: Result<(), String>,
}

/// What a replacement comes to, and whether the package from before has to be
/// put back.
pub open spec fn replacement_outcome(
    previous: bool,
    aside: Result<(), Seq<char>>,
    placed: Result<(), Seq<char>>,
    dropped: Result<(), Seq<char>>,
) -> (Result<(), Seq<char>>, bool) {
    match (previous, aside) {
        (true, Err(e)) => (Err("save: "@ + e), false),
        _ => match placed {
            Err(e) => (Err("save: "@ + e), previous),
            Ok(()) => match (previous, dropped) {
                (true, Err(e)) => (Err("save: "@ + e), false),
                _ => (Ok(()), false),
            },
        },
    }
}

/// What a replacement comes to, and whether the package from before has to be
/// put back.
pub fn replace_package(done: Replacement) -> (r: (Result<(), String>, bool))
    ensures
        (verdict(r.0), r.1) == replacement_outcome(
            done.previous,
            verdict(done.aside),
            verdict(done.placed),
            verdict(done.dropped),
        ),
{
    if done.previous {
        if let Err(e) = done.aside {
            return (Err(cat("save: ", e.as_str())), false);
        }
    }
    if let Err(e) = done.placed {
        return (Err(cat("save: ", e.as_str())), done.previous);
    }
    if done.previous {
        if let Err(e) = done.dropped {
            return (Err(cat("save: ", e.as_str())), false);
        }
    }
    (Ok(()), false)
}

/// A package that stepped aside for one that could not take its place is put
/// back, and only such a one.
pub proof fn replaced_packages_come_back(
    previous: bool,
    aside: Result<(), Seq<char>>,
    placed: Result<(), Seq<char>>,
    dropped: Result<(), Seq<char>>,
)
    ensures
        replacement_outcome(previous, aside, placed, dropped).1 <==> (previous && aside is Ok
            && placed is Err),
        replacement_outcome(previous, aside, placed, dropped).1 ==> replacement_outcome(
            previous,
            aside,
            placed,
            dropped,
        ).0 is Err,
{
}

/// The saves under way: for each path the number of the last one.
pub struct SaveTickets {
    pub last: TextMap<u64>,
}

/// The number of the last save of a path.
pub open spec fn last_ticket(tickets: Map<Seq<char>, u64>, path: Seq<char>) -> u64 {
    if tickets.contains_key(path) {
        tickets[path]
    } else {
        0
    }
}

impl SaveTickets {
    pub fn new() -> (r: SaveTickets)
        ensures
            r.last@ == Map::<Seq<char>, u64>::empty(),
    {
        SaveTickets { last: TextMap::new() }
    }

    /// The number of a new save of a path; earlier ones are behind it.
    pub fn canvas_save_ticket(&mut self, path: &str) -> (r: u64)
        ensures
            r == after(last_ticket(old(self).last@, path@)),
            final(self).last@ == old(self).last@.insert(path@, r),
    {
        let before: u64 = match self.last.get(path) {
            Some(n) => *n,
            None => 0,
        };
        let next: u64 = next_number(before);
        self.last.insert(path, next);
        next
    }

    /// Whether no later save of the path has begun.
    pub fn is_latest(&self, path: &str, number: u64) -> (r: bool)
        ensures
            r == (last_ticket(self.last@, path@) == number),
    {
        match self.last.get(path) {
            Some(n) => *n == number,
            None => number == 0,
        }
    }
}

/// A save is the latest until another of the same path begins; those of other
/// paths do not matter.
pub proof fn later_saves_win(tickets: Map<Seq<char>, u64>, path: Seq<char>, other: Seq<char>)
    ensures
        ({
            let own = after(last_ticket(tickets, path));
            let begun = tickets.insert(path, own);
            let next = after(last_ticket(begun, other));
            let then = begun.insert(other, next);
            last_ticket(begun, path) == own && (last_ticket(then, path) == own <==> other != path)
        }),
{
}

/// The action that tells that the projects changed.
pub fn notify_canvas_registry_changed() -> (r: (String, String))
    ensures
        r.0@ == "canvas-projects-refresh"@,
        r.1@ == ""@,
{
    ("canvas-projects-refresh".to_owned(), "".to_owned())
}

/// The action that tells how a handoff to the canvas went.
pub fn report_canvas_handoff(success: bool, detail: &str) -> (r: (String, String))
    ensures
        r.0@ == if success {
            "handoff-complete"@
        } else {
            "handoff-failed"@
        },
        r.1@ == detail@,
{
    (
        (if success {
            "handoff-complete"
        } else {
            "handoff-failed"
        }).to_owned(),
        detail.to_owned(),
    )
}

/// A project that was used is remembered first, and every project at most
/// once, if that was so before.
pub proof fn used_projects_come_first(paths: Seq<Seq<char>>, path: Seq<char>)
    ensures
        remembered(paths, path).len() > 0,
        remembered(paths, path)[0] == path,
        remembered(paths, path).len() <= RECENT_LIMIT,
        forall|i: int|
            1 <= i < remembered(paths, path).len() ==> #[trigger] remembered(paths, path)[i]
                != path,
{
    let p = is_other(path);
    crate::lists::kept_satisfies(paths, p);
    let rest = crate::lists::kept(paths, p);
    assert forall|i: int| 1 <= i < remembered(paths, path).len() implies #[trigger] remembered(
        paths,
        path,
    )[i] != path by {
        assert(remembered(paths, path)[i] == rest[i - 1]);
        assert(p(rest[i - 1]));
    }
}

/// The projects that were used before stay in their order, up to a hundred with
/// the one that was used last.
pub proof fn earlier_projects_stay_in_order(paths: Seq<Seq<char>>, path: Seq<char>)
    requires
        !paths.contains(path),
    ensures
        paths.len() < 100 ==> remembered(paths, path) == seq![path] + paths,
        paths.len() >= 100 ==> remembered(paths, path) == seq![path] + paths.take(99),
{
    all_others_stay(paths, path);
    let all = seq![path] + paths;
    assert(paths.len() >= 100 ==> all.take(100) =~= seq![path] + paths.take(99));
}

proof fn all_others_stay(paths: Seq<Seq<char>>, path: Seq<char>)
    requires
        !paths.contains(path),
    ensures
        crate::lists::kept(paths, is_other(path)) == paths,
    decreases paths.len(),
{
    if paths.len() > 0 {
        let front = paths.drop_last();
        assert(paths.contains(paths[paths.len() - 1]));
        assert forall|k: int| 0 <= k < front.len() implies #[trigger] front[k] != path by {
            assert(paths.contains(paths[k]));
        }
        all_others_stay(front, path);
        assert(front.push(paths.last()) =~= paths);
    } else {
        assert(crate::lists::kept(paths, is_other(path)) =~= paths);
    }
}

} // verus!
