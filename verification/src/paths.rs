//! File paths as text, with `/` between their parts. Where a machine writes
//! another separator, the program around the library writes `/` in its place.

use crate::text::{
    chars_of, find_last, join, joined, last_of, opt, same, split, split_on, text_of, views,
};
use vstd::prelude::*;
use vstd::string::*;

verus! {

/// Calls `std::path::Path::is_absolute`. What an absolute path begins with is the
/// machine's own, so nothing is stated of the result.
#[verifier::external_body]
pub(crate) fn is_absolute(path: &str) -> (r: bool) {
    std::path::Path::new(path).is_absolute()
}

/// The last part of a path that is neither empty nor `.`.
pub open spec fn last_part(parts: Seq<Seq<char>>) -> Option<Seq<char>>
    decreases parts.len(),
{
    if parts.len() == 0 {
        None
    } else if parts.last() == ""@ || parts.last() == "."@ {
        last_part(parts.drop_last())
    } else {
        Some(parts.last())
    }
}

/// The name of the file that a path leads to: its last part, unless that is
/// `..` or missing.
pub open spec fn file_name_of(path: Seq<char>) -> Option<Seq<char>> {
    match last_part(split_on(path, '/')) {
        Some(name) => if name == ".."@ {
            None
        } else {
            Some(name)
        },
        None => None,
    }
}

/// What stands behind the last dot of a file name, unless the name starts with
/// that dot.
pub open spec fn extension_of(path: Seq<char>) -> Option<Seq<char>> {
    match file_name_of(path) {
        Some(name) => match last_of(name, '.') {
            Some(i) => if i == 0 {
                None
            } else {
                Some(name.subrange(i + 1, name.len() as int))
            },
            None => None,
        },
        None => None,
    }
}

/// The file name without its extension.
pub open spec fn stem_of(path: Seq<char>) -> Option<Seq<char>> {
    match file_name_of(path) {
        Some(name) => match last_of(name, '.') {
            Some(i) => if i == 0 {
                Some(name)
            } else {
                Some(name.subrange(0, i))
            },
            None => Some(name),
        },
        None => None,
    }
}

pub fn file_name(path: &str) -> (r: Option<String>)
    ensures
        opt(r) == file_name_of(path@),
{
    let parts: Vec<String> = split(path, '/');
    let ghost all = views(parts@);
    let mut i: usize = parts.len();
    proof {
        assert(all.take(i as int) =~= all);
    }
    while i > 0
        invariant
            i <= parts.len(),
            all == views(parts@),
            all == split_on(path@, '/'),
            last_part(all) == last_part(all.take(i as int)),
        decreases i,
    {
        let part: &str = parts[i - 1].as_str();
        proof {
            assert(all.take(i as int).drop_last() =~= all.take(i - 1));
            assert(all.take(i as int).last() == part@);
        }
        if !same(part, "") && !same(part, ".") {
            if same(part, "..") {
                return None;
            }
            return Some(part.to_owned());
        }
        i = i - 1;
    }
    None
}

pub fn extension(path: &str) -> (r: Option<String>)
    ensures
        opt(r) == extension_of(path@),
{
    match file_name(path) {
        Some(name) => {
            let v: Vec<char> = chars_of(name.as_str());
            proof {
                assert(v@.take(v@.len() as int) =~= v@);
            }
            match find_last(&v, v.len(), '.') {
                Some(i) => if i == 0 {
                    None
                } else {
                    Some(text_of(&v, i + 1, v.len()))
                },
                None => None,
            }
        },
        None => None,
    }
}

pub fn file_stem(path: &str) -> (r: Option<String>)
    ensures
        opt(r) == stem_of(path@),
{
    match file_name(path) {
        Some(name) => {
            let v: Vec<char> = chars_of(name.as_str());
            proof {
                assert(v@.take(v@.len() as int) =~= v@);
            }
            match find_last(&v, v.len(), '.') {
                Some(i) => if i == 0 {
                    Some(name)
                } else {
                    Some(text_of(&v, 0, i))
                },
                None => Some(name),
            }
        },
        None => None,
    }
}

/// The file `name` in the directory `folder`.
pub open spec fn joined_path(folder: Seq<char>, name: Seq<char>) -> Seq<char> {
    if name.len() > 0 && name[0] == '/' {
        name
    } else if folder.len() == 0 || folder.last() == '/' {
        folder + name
    } else {
        folder + "/"@ + name
    }
}

pub fn join_path(folder: &str, name: &str) -> (r: String)
    ensures
        r@ == joined_path(folder@, name@),
{
    let n: usize = name.unicode_len();
    if n > 0 && name.get_char(0) == '/' {
        return name.to_owned();
    }
    let f: usize = folder.unicode_len();
    if f == 0 || folder.get_char(f - 1) == '/' {
        crate::text::cat(folder, name)
    } else {
        crate::text::cat3(folder, "/", name)
    }
}

/// Whether a part of a path leads nowhere.
pub open spec fn is_void(part: Seq<char>) -> bool {
    part == ""@ || part == "."@
}

/// How many of the first `n` parts are left when the last ones that lead
/// nowhere are dropped; a first part `.` stays.
pub open spec fn solid_parts(parts: Seq<Seq<char>>, n: nat) -> nat
    decreases n,
{
    if n == 0 {
        0
    } else if is_void(parts[n - 1]) && !(n == 1 && parts[0] == "."@) {
        solid_parts(parts, (n - 1) as nat)
    } else {
        n
    }
}

/// How many parts stand before the last one that leads somewhere.
pub open spec fn parts_before_last(parts: Seq<Seq<char>>, n: nat) -> nat
    decreases n,
{
    if n == 0 {
        0
    } else if is_void(parts[n - 1]) {
        parts_before_last(parts, (n - 1) as nat)
    } else {
        (n - 1) as nat
    }
}

/// The directory that a path leads through last.
pub open spec fn parent_of(path: Seq<char>) -> Seq<char> {
    let parts = split_on(path, '/');
    let m = solid_parts(parts, parts_before_last(parts, parts.len()));
    if m > 0 {
        joined(parts.take(m as int), "/"@)
    } else if path.len() > 0 && path[0] == '/' {
        "/"@
    } else {
        ""@
    }
}

/// The directory that a path leads through last.
pub fn parent(path: &str) -> (r: String)
    ensures
        r@ == parent_of(path@),
{
    let parts: Vec<String> = split(path, '/');
    let ghost all = views(parts@);
    let mut n: usize = parts.len();
    while n > 0 && (same(parts[n - 1].as_str(), "") || same(parts[n - 1].as_str(), "."))
        invariant
            n <= parts.len(),
            all == views(parts@),
            parts_before_last(all, all.len()) == parts_before_last(all, n as nat),
        decreases n,
    {
        n = n - 1;
    }
    if n > 0 {
        proof {
            assert(all[n - 1] == parts@[n - 1]@);
        }
        n = n - 1;
    }
    let ghost before = n as nat;
    let mut m: usize = n;
    while m > 0 && (same(parts[m - 1].as_str(), "") || same(parts[m - 1].as_str(), ".")) && !(m == 1
        && same(parts[0].as_str(), "."))
        invariant
            m <= n <= parts.len(),
            all == views(parts@),
            before == n,
            solid_parts(all, before) == solid_parts(all, m as nat),
        decreases m,
    {
        m = m - 1;
    }
    if m > 0 {
        let mut kept: Vec<String> = Vec::new();
        let mut i: usize = 0;
        while i < m
            invariant
                i <= m <= parts.len(),
                all == views(parts@),
                kept@.len() == i,
                forall|j: int| 0 <= j < i ==> (#[trigger] kept@[j])@ == all[j],
            decreases m - i,
        {
            kept.push(parts[i].clone());
            i = i + 1;
        }
        proof {
            assert(views(kept@) =~= all.take(m as int));
            assert(all[m - 1] == parts@[m - 1]@);
        }
        join(&kept, "/")
    } else if path.unicode_len() > 0 && path.get_char(0) == '/' {
        "/".to_owned()
    } else {
        "".to_owned()
    }
}

/// The name of a file is its stem, a dot and its extension; the extension holds
/// no dot, and a name that only begins with a dot has none.
pub proof fn names_are_stem_and_extension(path: Seq<char>, name: Seq<char>)
    requires
        file_name_of(path) == Some(name),
    ensures
        extension_of(path) matches Some(e) ==> stem_of(path) is Some && stem_of(path)->0.len() > 0
            && name == stem_of(path)->0 + seq!['.'] + e && !e.contains('.'),
        extension_of(path) is None ==> stem_of(path) == Some(name),
        extension_of(path) is None && name.contains('.') ==> name[0] == '.' && !name.drop_first()
            .contains('.'),
        !name.contains('/'),
        name.len() > 0,
{
    crate::text::last_places_are_last(name, '.');
    crate::text::pieces_make_the_text(path, '/');
    last_part_is_a_part(split_on(path, '/'));
    reveal_strlit("");
    if name.len() == 0 {
        assert(name =~= ""@);
    }
    if let Some(i) = last_of(name, '.') {
        let e = name.subrange(i + 1, name.len() as int);
        assert(name =~= name.subrange(0, i) + seq!['.'] + e);
        if e.contains('.') {
            let k = choose|k: int| 0 <= k < e.len() && e[k] == '.';
            assert(name[i + 1 + k] == '.');
        }
        if i == 0 {
            assert(name.drop_first() =~= e);
        }
    }
}

proof fn last_part_is_a_part(parts: Seq<Seq<char>>)
    ensures
        last_part(parts) matches Some(p) ==> parts.contains(p) && p != ""@,
    decreases parts.len(),
{
    if parts.len() > 0 {
        if parts.last() == ""@ || parts.last() == "."@ {
            let front = parts.drop_last();
            last_part_is_a_part(front);
            if let Some(p) = last_part(parts) {
                let k = choose|k: int| 0 <= k < front.len() && front[k] == p;
                assert(parts[k] == p);
            }
        } else {
            assert(parts[parts.len() - 1] == parts.last());
        }
    }
}

/// A name joined to a folder follows it after one slash.
pub proof fn names_follow_their_folder(folder: Seq<char>, name: Seq<char>)
    requires
        name.len() > 0,
        name[0] != '/',
    ensures
        folder.len() > 0 && folder.last() != '/' ==> joined_path(folder, name) == folder + seq!['/']
            + name,
        folder.len() > 0 && folder.last() == '/' ==> joined_path(folder, name) == folder + name,
        folder.len() == 0 ==> joined_path(folder, name) == name,
{
    reveal_strlit("/");
    assert("/"@ =~= seq!['/']);
    assert(folder.len() == 0 ==> folder + name =~= name);
}

} // verus!
