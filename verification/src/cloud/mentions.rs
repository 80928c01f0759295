//! Mentions of reference media in a prompt.
//!
//! A prompt names its reference media by tokens such as `@[图片2]`: the label
//! of a medium and its number among the references of that medium. A prompt is
//! read once, from left to right, as a sequence of pieces; rewriting replaces
//! each token by a text and copies every other character, so what a
//! replacement puts in is never read again.

use crate::text::{
    at_byte, at_byte_unique, byte_len, byte_len_grows, bytes_before, cat, cat3, char_index,
    chars_of, contains, contains_text, decimal, find_last, is_whitespace, last_of, occurs,
    occurs_at, parsed, read_number, same, text_of, to_decimal, white_space,
};
use vstd::prelude::*;
use vstd::string::*;

verus! {

/// One character of a prompt, or one complete token with the label and the
/// number it names.
pub enum Piece {
    Text(char),
    Mention(Seq<char>, nat),
}

/// The place of the first `c` in `s[from..]`.
pub open spec fn next_of(s: Seq<char>, from: int, c: char) -> Option<int>
    decreases s.len() - from,
{
    if from < 0 || from >= s.len() {
        None
    } else if s[from] == c {
        Some(from)
    } else {
        next_of(s, from + 1, c)
    }
}

/// The media label that stands in `s` at `i`.
pub open spec fn label_at(s: Seq<char>, i: int) -> Option<Seq<char>> {
    if occurs_at(s, "图片"@, i) {
        Some("图片"@)
    } else if occurs_at(s, "视频"@, i) {
        Some("视频"@)
    } else if occurs_at(s, "音频"@, i) {
        Some("音频"@)
    } else {
        None
    }
}

/// The token that starts in `s` at `i`: its label, its number and the place
/// behind it. A token is `@[`, a label, a number and the next `]`.
pub open spec fn token_at(s: Seq<char>, i: int) -> Option<(Seq<char>, nat, int)> {
    if !occurs_at(s, "@["@, i) {
        None
    } else {
        match label_at(s, i + "@["@.len()) {
            None => None,
            Some(label) => {
                let from = i + "@["@.len() + label.len();
                match next_of(s, from, ']') {
                    None => None,
                    Some(end) => match parsed(s.subrange(from, end), usize::MAX as nat) {
                        None => None,
                        Some(number) => Some((label, number, end + 1)),
                    },
                }
            },
        }
    }
}

/// `head` before `rest`.
pub open spec fn cons(head: Piece, rest: Seq<Piece>) -> Seq<Piece> {
    seq![head] + rest
}

/// `s[i..]` as pieces.
pub open spec fn pieces(s: Seq<char>, i: int) -> Seq<Piece>
    decreases s.len() - i,
{
    if i < 0 || i >= s.len() {
        Seq::empty()
    } else if token_at(s, i) is None {
        cons(Piece::Text(s[i]), pieces(s, i + 1))
    } else {
        let (label, number, end) = token_at(s, i)->0;
        if i < end <= s.len() {
            cons(Piece::Mention(label, number), pieces(s, end))
        } else {
            Seq::empty()
        }
    }
}

/// The text of the pieces, with `g` in place of each token.
pub open spec fn rendered(p: Seq<Piece>, g: spec_fn(Seq<char>, nat) -> Seq<char>) -> Seq<char>
    decreases p.len(),
{
    if p.len() == 0 {
        Seq::empty()
    } else {
        let head = match p[0] {
            Piece::Text(c) => seq![c],
            Piece::Mention(label, number) => g(label, number),
        };
        head + rendered(p.drop_first(), g)
    }
}

/// `f` computes `g`.
pub open spec fn computes<F: Fn(&str, usize) -> String>(
    f: F,
    g: spec_fn(Seq<char>, nat) -> Seq<char>,
) -> bool {
    forall|label: &str, number: usize, out: String|
        #[trigger] call_ensures(f, (label, number), out) ==> out@ == g(label@, number as nat)
}

proof fn next_of_bounds(s: Seq<char>, from: int, c: char)
    requires
        0 <= from,
    ensures
        next_of(s, from, c) matches Some(end) ==> from <= end < s.len() && s[end] == c,
    decreases s.len() - from,
{
    if from < s.len() && s[from] != c {
        next_of_bounds(s, from + 1, c);
    }
}

pub fn find_next(v: &Vec<char>, from: usize, c: char) -> (r: Option<usize>)
    requires
        from <= v.len(),
    ensures
        match r {
            Some(end) => next_of(v@, from as int, c) == Some(end as int) && from <= end < v.len(),
            None => next_of(v@, from as int, c) is None,
        },
{
    let mut i: usize = from;
    while i < v.len()
        invariant
            from <= i <= v.len(),
            next_of(v@, from as int, c) == next_of(v@, i as int, c),
        decreases v.len() - i,
    {
        if v[i] == c {
            return Some(i);
        }
        i = i + 1;
    }
    None
}

/// The label at `i`, as text.
fn find_label(v: &Vec<char>, i: usize) -> (r: Option<&'static str>)
    ensures
        match r {
            Some(label) => label_at(v@, i as int) == Some(label@) && i + label@.len() <= v.len(),
            None => label_at(v@, i as int) is None,
        },
{
    if occurs(v, &chars_of("图片"), i) {
        Some("图片")
    } else if occurs(v, &chars_of("视频"), i) {
        Some("视频")
    } else if occurs(v, &chars_of("音频"), i) {
        Some("音频")
    } else {
        None
    }
}

fn find_token(v: &Vec<char>, i: usize) -> (r: Option<(&'static str, usize, usize)>)
    ensures
        match r {
            Some((label, number, end)) => token_at(v@, i as int) == Some(
                (label@, number as nat, end as int),
            ) && i < end <= v.len(),
            None => token_at(v@, i as int) is None,
        },
{
    let open: Vec<char> = chars_of("@[");
    proof {
        reveal_strlit("@[");
    }
    if !occurs(v, &open, i) {
        return None;
    }
    assert(i + open.len() <= v.len());
    let label: &'static str = match find_label(v, i + open.len()) {
        Some(label) => label,
        None => return None,
    };
    let from: usize = i + open.len() + label.unicode_len();
    let end: usize = match find_next(v, from, ']') {
        Some(end) => end,
        None => return None,
    };
    match read_number(v, from, end) {
        Some(number) => if number <= usize::MAX as u64 {
            Some((label, number as usize, end + 1))
        } else {
            None
        },
        None => None,
    }
}


/// A piece as the code holds it.
pub enum Part {
    Char(char),
    Token(&'static str, usize),
}

pub open spec fn piece_of(part: Part) -> Piece {
    match part {
        Part::Char(c) => Piece::Text(c),
        Part::Token(label, number) => Piece::Mention(label@, number as nat),
    }
}

pub open spec fn pieces_of(parts: Seq<Part>) -> Seq<Piece> {
    Seq::new(parts.len(), |i: int| piece_of(parts[i]))
}

proof fn pieces_push(parts: Seq<Part>, part: Part, rest: Seq<Piece>)
    ensures
        pieces_of(parts.push(part)) + rest == pieces_of(parts) + cons(piece_of(part), rest),
{
    assert(pieces_of(parts.push(part)) =~= pieces_of(parts).push(piece_of(part)));
    assert(pieces_of(parts.push(part)) + rest =~= pieces_of(parts) + cons(piece_of(part), rest));
}

/// Reads a prompt as pieces.
pub fn read_pieces(prompt: &str) -> (r: Vec<Part>)
    ensures
        pieces_of(r@) == pieces(prompt@, 0),
{
    let v: Vec<char> = chars_of(prompt);
    let ghost s = prompt@;
    let mut out: Vec<Part> = Vec::new();
    let mut i: usize = 0;
    proof {
        assert(pieces_of(out@) + pieces(s, 0) =~= pieces(s, 0));
    }
    while i < v.len()
        invariant
            i <= v.len(),
            v@ == s,
            pieces(s, 0) == pieces_of(out@) + pieces(s, i as int),
        decreases v.len() - i,
    {
        let ghost here = pieces(s, i as int);
        let ghost before = out@;
        match find_token(&v, i) {
            Some((label, number, end)) => {
                let part = Part::Token(label, number);
                out.push(part);
                i = end;
                proof {
                    assert(here == cons(piece_of(part), pieces(s, i as int)));
                    pieces_push(before, part, pieces(s, i as int));
                }
            },
            None => {
                let part = Part::Char(v[i]);
                out.push(part);
                i = i + 1;
                proof {
                    assert(here == cons(piece_of(part), pieces(s, i as int)));
                    pieces_push(before, part, pieces(s, i as int));
                }
            },
        }
    }
    proof {
        assert(pieces(s, i as int) =~= Seq::empty());
        assert(pieces_of(out@) + pieces(s, i as int) =~= pieces_of(out@));
    }
    out
}

/// Rendering goes piece by piece.
proof fn rendered_push(p: Seq<Piece>, last: Piece, g: spec_fn(Seq<char>, nat) -> Seq<char>)
    ensures
        rendered(p.push(last), g) == rendered(p, g) + (match last {
            Piece::Text(c) => seq![c],
            Piece::Mention(label, number) => g(label, number),
        }),
    decreases p.len(),
{
    reveal_with_fuel(rendered, 2);
    let tail = match last {
        Piece::Text(c) => seq![c],
        Piece::Mention(label, number) => g(label, number),
    };
    if p.len() == 0 {
        assert(p.push(last).drop_first() =~= Seq::empty());
        assert(tail + Seq::<char>::empty() =~= Seq::<char>::empty() + tail);
    } else {
        rendered_push(p.drop_first(), last, g);
        assert(p.push(last).drop_first() =~= p.drop_first().push(last));
        let head = match p[0] {
            Piece::Text(c) => seq![c],
            Piece::Mention(label, number) => g(label, number),
        };
        assert(head + (rendered(p.drop_first(), g) + tail) =~= head + rendered(p.drop_first(), g)
            + tail);
    }
}

/// Texts one after the other.
pub open spec fn chained(texts: Seq<Seq<char>>) -> Seq<char>
    decreases texts.len(),
{
    if texts.len() == 0 {
        Seq::empty()
    } else {
        chained(texts.drop_last()) + texts.last()
    }
}

/// What stands for a piece: its character, or a text that `f` may give for its
/// label and number.
pub open spec fn is_given<F: Fn(&str, usize) -> String>(f: F, piece: Piece, text: Seq<char>) -> bool {
    match piece {
        Piece::Text(c) => text == seq![c],
        Piece::Mention(label, number) => exists|l: &str, n: usize, out: String|
            l@ == label && n == number && out@ == text && #[trigger] call_ensures(f, (l, n), out),
    }
}

/// Each text stands for the piece at its place.
pub open spec fn are_given<F: Fn(&str, usize) -> String>(
    f: F,
    all: Seq<Piece>,
    texts: Seq<Seq<char>>,
) -> bool {
    texts.len() == all.len() && forall|i: int|
        0 <= i < all.len() ==> is_given(f, all[i], #[trigger] texts[i])
}

/// Replaces each token of a prompt by what `replacement` gives for its label
/// and number.
pub fn rewrite_media_mentions<F: Fn(&str, usize) -> String>(
    prompt: &str,
    replacement: F,
) -> (r: String)
    requires
        forall|label: &str, number: usize|
            pieces(prompt@, 0).contains(Piece::Mention(label@, number as nat)) ==> #[trigger]
                call_requires(replacement, (label, number)),
    ensures
        forall|g: spec_fn(Seq<char>, nat) -> Seq<char>| #[trigger]
            computes(replacement, g) ==> r@ == rendered(pieces(prompt@, 0), g),
        exists|texts: Seq<Seq<char>>| #[trigger]
            are_given(replacement, pieces(prompt@, 0), texts) && r@ == chained(texts),
{
    let parts: Vec<Part> = read_pieces(prompt);
    let ghost all = pieces(prompt@, 0);
    let ghost mut texts: Seq<Seq<char>> = Seq::empty();
    let mut out: String = String::new();
    let mut i: usize = 0;
    proof {
        assert(all.take(0) =~= Seq::empty());
    }
    while i < parts.len()
        invariant
            i <= parts.len(),
            all == pieces_of(parts@),
            all == pieces(prompt@, 0),
            forall|label: &str, number: usize|
                all.contains(Piece::Mention(label@, number as nat)) ==> #[trigger] call_requires(
                    replacement,
                    (label, number),
                ),
            forall|g: spec_fn(Seq<char>, nat) -> Seq<char>| #[trigger]
                computes(replacement, g) ==> out@ == rendered(all.take(i as int), g),
            texts.len() == i,
            forall|j: int| 0 <= j < i ==> is_given(replacement, all[j], #[trigger] texts[j]),
            out@ == chained(texts),
        decreases parts.len() - i,
    {
        let ghost before = out@;
        let ghost given = texts;
        proof {
            assert(all.take(i + 1) =~= all.take(i as int).push(all[i as int]));
            assert(all.contains(all[i as int]));
            assert forall|g: spec_fn(Seq<char>, nat) -> Seq<char>| #[trigger]
                computes(replacement, g) implies rendered(all.take(i + 1), g) == before + (
            match all[i as int] {
                Piece::Text(c) => seq![c],
                Piece::Mention(label, number) => g(label, number),
            }) by {
                rendered_push(all.take(i as int), all[i as int], g);
            }
        }
        match &parts[i] {
            Part::Char(c) => {
                out.push(*c);
                proof {
                    assert(before.push(*c) =~= before + seq![*c]);
                    texts = given.push(seq![*c]);
                }
            },
            Part::Token(label, number) => {
                let new: String = replacement(*label, *number);
                out.append(new.as_str());
                proof {
                    texts = given.push(new@);
                    assert(call_ensures(replacement, (*label, *number), new));
                    assert forall|g: spec_fn(Seq<char>, nat) -> Seq<char>| #[trigger]
                        computes(replacement, g) implies new@ == g(label@, *number as nat) by {}
                }
            },
        }
        proof {
            assert(texts.drop_last() =~= given);
            assert(is_given(replacement, all[i as int], texts[i as int]));
        }
        i = i + 1;
    }
    proof {
        assert(all.take(parts@.len() as int) =~= all);
        assert(are_given(replacement, all, texts));
    }
    out
}

/// A token as it is written.
pub open spec fn token_text(label: Seq<char>, number: nat) -> Seq<char> {
    "@["@ + label + decimal(number) + "]"@
}

pub fn token(label: &str, number: usize) -> (r: String)
    ensures
        r@ == token_text(label@, number as nat),
{
    let digits: String = to_decimal(number as u64);
    let mut out: String = cat3("@[", label, digits.as_str());
    out.append("]");
    out
}

/// `f` computes `g`.
pub open spec fn computes_image<F: Fn(usize) -> String>(
    f: F,
    g: spec_fn(nat) -> Seq<char>,
) -> bool {
    forall|number: usize, out: String| #[trigger]
        call_ensures(f, (number,), out) ==> out@ == g(number as nat)
}

/// `g` for image tokens, every other token as it is written.
pub open spec fn images_only(g: spec_fn(nat) -> Seq<char>) -> spec_fn(Seq<char>, nat) -> Seq<char> {
    |label: Seq<char>, number: nat|
        if label == "图片"@ {
            g(number)
        } else {
            token_text(label, number)
        }
}

/// What stands for a piece: its character, a text that `f` may give for the
/// number of an image token, or any other token as it is written.
pub open spec fn is_image_given<F: Fn(usize) -> String>(f: F, piece: Piece, text: Seq<char>) -> bool {
    match piece {
        Piece::Text(c) => text == seq![c],
        Piece::Mention(label, number) => if label == "图片"@ {
            exists|n: usize, out: String|
                n == number && out@ == text && #[trigger] call_ensures(f, (n,), out)
        } else {
            text == token_text(label, number)
        },
    }
}

/// Each text stands for the piece at its place.
pub open spec fn are_images_given<F: Fn(usize) -> String>(
    f: F,
    all: Seq<Piece>,
    texts: Seq<Seq<char>>,
) -> bool {
    texts.len() == all.len() && forall|i: int|
        0 <= i < all.len() ==> is_image_given(f, all[i], #[trigger] texts[i])
}

/// Replaces each image token of a prompt; tokens of other media are written
/// back.
pub fn rewrite_mentions<F: Fn(usize) -> String>(prompt: &str, replacement: F) -> (r: String)
    requires
        forall|number: usize|
            pieces(prompt@, 0).contains(Piece::Mention("图片"@, number as nat)) ==> #[trigger]
                call_requires(replacement, (number,)),
    ensures
        forall|g: spec_fn(nat) -> Seq<char>| #[trigger]
            computes_image(replacement, g) ==> r@ == rendered(pieces(prompt@, 0), images_only(g)),
        exists|texts: Seq<Seq<char>>| #[trigger]
            are_images_given(replacement, pieces(prompt@, 0), texts) && r@ == chained(texts),
{
    let parts: Vec<Part> = read_pieces(prompt);
    let ghost all = pieces(prompt@, 0);
    let ghost mut texts: Seq<Seq<char>> = Seq::empty();
    let mut out: String = String::new();
    let mut i: usize = 0;
    proof {
        assert(all.take(0) =~= Seq::empty());
    }
    while i < parts.len()
        invariant
            i <= parts.len(),
            all == pieces_of(parts@),
            all == pieces(prompt@, 0),
            forall|number: usize|
                all.contains(Piece::Mention("图片"@, number as nat)) ==> #[trigger] call_requires(
                    replacement,
                    (number,),
                ),
            forall|g: spec_fn(nat) -> Seq<char>| #[trigger]
                computes_image(replacement, g) ==> out@ == rendered(
                    all.take(i as int),
                    images_only(g),
                ),
            texts.len() == i,
            forall|j: int| 0 <= j < i ==> is_image_given(replacement, all[j], #[trigger] texts[j]),
            out@ == chained(texts),
        decreases parts.len() - i,
    {
        let ghost before = out@;
        let ghost given = texts;
        proof {
            assert(all.take(i + 1) =~= all.take(i as int).push(all[i as int]));
            assert(all.contains(all[i as int]));
            assert forall|g: spec_fn(nat) -> Seq<char>| #[trigger]
                computes_image(replacement, g) implies rendered(all.take(i + 1), images_only(g))
                == before + (match all[i as int] {
                Piece::Text(c) => seq![c],
                Piece::Mention(label, number) => images_only(g)(label, number),
            }) by {
                rendered_push(all.take(i as int), all[i as int], images_only(g));
            }
        }
        match &parts[i] {
            Part::Char(c) => {
                out.push(*c);
                proof {
                    assert(before.push(*c) =~= before + seq![*c]);
                    texts = given.push(seq![*c]);
                }
            },
            Part::Token(label, number) => {
                if same(*label, "图片") {
                    let new: String = replacement(*number);
                    out.append(new.as_str());
                    proof {
                        texts = given.push(new@);
                        assert(call_ensures(replacement, (*number,), new));
                        assert forall|g: spec_fn(nat) -> Seq<char>| #[trigger]
                            computes_image(replacement, g) implies new@ == g(*number as nat) by {}
                    }
                } else {
                    let new: String = token(*label, *number);
                    out.append(new.as_str());
                    proof {
                        texts = given.push(new@);
                    }
                }
            },
        }
        proof {
            assert(texts.drop_last() =~= given);
            assert(is_image_given(replacement, all[i as int], texts[i as int]));
        }
        i = i + 1;
    }
    proof {
        assert(all.take(parts@.len() as int) =~= all);
        assert(are_images_given(replacement, all, texts));
    }
    out
}

/// A token that names none of `count` references of its label.
pub open spec fn names_nothing(piece: Piece, count: spec_fn(Seq<char>) -> nat) -> bool {
    piece matches Piece::Mention(label, number) && (number == 0 || number > count(label))
}

/// How many references each label has.
pub open spec fn label_counts(images: nat, videos: nat, audios: nat) -> spec_fn(Seq<char>) -> nat {
    |label: Seq<char>|
        if label == "图片"@ {
            images
        } else if label == "视频"@ {
            videos
        } else {
            audios
        }
}

/// Whether some token of a prompt names no reference.
pub fn has_missing_mention(prompt: &str, images: usize, videos: usize, audios: usize) -> (r: bool)
    ensures
        r == exists|k: int|
            0 <= k < pieces(prompt@, 0).len() && names_nothing(
                #[trigger] pieces(prompt@, 0)[k],
                label_counts(images as nat, videos as nat, audios as nat),
            ),
{
    let parts: Vec<Part> = read_pieces(prompt);
    let ghost all = pieces(prompt@, 0);
    let ghost count = label_counts(images as nat, videos as nat, audios as nat);
    let mut i: usize = 0;
    while i < parts.len()
        invariant
            i <= parts.len(),
            all == pieces_of(parts@),
            all == pieces(prompt@, 0),
            count == label_counts(images as nat, videos as nat, audios as nat),
            forall|k: int| 0 <= k < i ==> !names_nothing(#[trigger] all[k], count),
        decreases parts.len() - i,
    {
        proof {
            assert(all[i as int] == piece_of(parts@[i as int]));
        }
        if let Part::Token(label, number) = &parts[i] {
            let limit: usize = if same(*label, "图片") {
                images
            } else if same(*label, "视频") {
                videos
            } else {
                audios
            };
            if *number == 0 || *number > limit {
                proof {
                    assert(names_nothing(all[i as int], count));
                }
                return true;
            }
        }
        i = i + 1;
    }
    false
}

/// Whether an image prompt holds the mark of a removed reference, or an image
/// token that names none of the `count` references.
pub fn invalid_reference_prompt(prompt: &str, count: usize) -> (r: bool)
    ensures
        r == (contains_text(prompt@, "[已移除参考图片]"@) || exists|k: int|
            0 <= k < pieces(prompt@, 0).len() && (#[trigger] pieces(prompt@, 0)[k] matches
                Piece::Mention(label, number) && label == "图片"@ && (number == 0 || number
                > count))),
{
    if contains(prompt, "[已移除参考图片]") {
        return true;
    }
    let parts: Vec<Part> = read_pieces(prompt);
    let ghost all = pieces(prompt@, 0);
    let mut i: usize = 0;
    while i < parts.len()
        invariant
            i <= parts.len(),
            all == pieces_of(parts@),
            all == pieces(prompt@, 0),
            forall|k: int|
                0 <= k < i ==> !(#[trigger] all[k] matches Piece::Mention(label, number) && label
                    == "图片"@ && (number == 0 || number > count)),
        decreases parts.len() - i,
    {
        proof {
            assert(all[i as int] == piece_of(parts@[i as int]));
        }
        if let Part::Token(label, number) = &parts[i] {
            if same(*label, "图片") && (*number == 0 || *number > count) {
                return true;
            }
        }
        i = i + 1;
    }
    false
}


/// A character that ends a mention that is being typed.
pub open spec fn ends_query(c: char) -> bool {
    white_space(c) || c == ']'
}

/// The place of the `@` of the mention that is being typed before character
/// `k`: the last `@`, where nothing between it and `k` ends it.
pub open spec fn typed_mention(s: Seq<char>, k: int) -> Option<int> {
    match last_of(s.take(k), '@') {
        Some(start) => if exists|j: int| start < j < k && ends_query(#[trigger] s[j]) {
            None
        } else {
            Some(start)
        },
        None => None,
    }
}

/// The characters of the mention that is being typed at the byte offset
/// `cursor`: from its `@` up to the cursor.
pub open spec fn mention_span(s: Seq<char>, cursor: int) -> Option<(int, int)> {
    if exists|k: int| at_byte(s, cursor, k) {
        let k = choose|k: int| at_byte(s, cursor, k);
        match typed_mention(s, k) {
            Some(j) => Some((j, k)),
            None => None,
        }
    } else {
        None
    }
}

fn find_mention(v: &Vec<char>, cursor: usize) -> (r: Option<(usize, usize)>)
    ensures
        match r {
            Some((j, k)) => mention_span(v@, cursor as int) == Some((j as int, k as int)) && j < k
                <= v.len() && at_byte(v@, cursor as int, k as int),
            None => mention_span(v@, cursor as int) is None,
        },
{
    match char_index(v, cursor) {
        None => None,
        Some(k) => {
            proof {
                let other = choose|other: int| at_byte(v@, cursor as int, other);
                at_byte_unique(v@, cursor as int, other, k as int);
            }
            match find_last(v, k, '@') {
                None => None,
                Some(start) => {
                    let mut i: usize = start + 1;
                    while i < k
                        invariant
                            start < i <= k <= v.len(),
                            last_of(v@.take(k as int), '@') == Some(start as int),
                            at_byte(v@, cursor as int, k as int),
                            k == choose|other: int| at_byte(v@, cursor as int, other),
                            forall|j: int| start < j < i ==> !ends_query(#[trigger] v@[j]),
                        decreases k - i,
                    {
                        if is_whitespace(v[i]) || v[i] == ']' {
                            return None;
                        }
                        i = i + 1;
                    }
                    Some((start, k))
                },
            }
        },
    }
}

/// Where the mention begins that is being typed at the byte offset `cursor`,
/// as a byte offset.
pub fn mention_start(prompt: &str, cursor: usize) -> (r: Option<usize>)
    ensures
        match mention_span(prompt@, cursor as int) {
            Some((j, k)) => r matches Some(start) && start == byte_len(prompt@.take(j)),
            None => r is None,
        },
{
    let v: Vec<char> = chars_of(prompt);
    match find_mention(&v, cursor) {
        None => None,
        Some((j, k)) => {
            proof {
                byte_len_grows(v@, j as int, k as int);
            }
            Some(bytes_before(&v, j) as usize)
        },
    }
}

/// The part of the generation form that holds the prompt.
pub struct PromptForm {
    pub prompt: String,
    /// The cursor, in bytes.
    pub prompt_cursor: i32,
    pub mention_open: bool,
}

pub struct PromptView {
    pub prompt: Seq<char>,
    pub prompt_cursor: i32,
    pub mention_open: bool,
}

impl View for PromptForm {
    type V = PromptView;

    open spec fn view(&self) -> PromptView {
        PromptView {
            prompt: self.prompt@,
            prompt_cursor: self.prompt_cursor,
            mention_open: self.mention_open,
        }
    }
}

/// The cursor of a form as an offset; a negative one counts as 0.
pub open spec fn cursor_of(cursor: i32) -> int {
    if cursor < 0 {
        0
    } else {
        cursor as int
    }
}

/// Opens the list of references while a mention is being typed, and closes it
/// otherwise.
pub fn update_mention(form: &mut PromptForm)
    ensures
        *final(form) == (PromptForm {
            mention_open: mention_span(
                old(form).prompt@,
                cursor_of(old(form).prompt_cursor),
            ) is Some,
            ..*old(form)
        }),
{
    let cursor: usize = if form.prompt_cursor < 0 {
        0
    } else {
        form.prompt_cursor as usize
    };
    form.mention_open = mention_start(form.prompt.as_str(), cursor).is_some();
}

/// The prompt with the token put in the place of the mention that is being
/// typed, which stands at characters `j..k`.
pub open spec fn with_token(s: Seq<char>, j: int, k: int, token: Seq<char>) -> Seq<char> {
    s.take(j) + token + s.skip(k)
}

/// Puts the token of the reference `number` of `label`, and a space, in the
/// place of the mention that is being typed, and moves the cursor behind it.
/// Where no mention is being typed, the form stays as it is.
pub fn complete_mention(form: &mut PromptForm, label: &str, number: usize) -> (r: bool)
    ensures
        match mention_span(old(form).prompt@, cursor_of(old(form).prompt_cursor)) {
            None => !r && *final(form) == *old(form),
            Some((j, k)) => {
                let s = old(form).prompt@;
                let text = token_text(label@, number as nat) + " "@;
                &&& r
                &&& final(form).prompt@ == with_token(s, j, k, text)
                &&& final(form).prompt_cursor == (byte_len(s.take(j)) + byte_len(text)) as i32
                &&& !final(form).mention_open
            },
        },
{
    let cursor: usize = if form.prompt_cursor < 0 {
        0
    } else {
        form.prompt_cursor as usize
    };
    let ghost s = form.prompt@;
    let v: Vec<char> = chars_of(form.prompt.as_str());
    match find_mention(&v, cursor) {
        None => false,
        Some((j, k)) => {
            let start: u128 = bytes_before(&v, j);
            let written: String = token(label, number);
            let text: String = cat(written.as_str(), " ");
            let head: String = text_of(&v, 0, j);
            let tail: String = text_of(&v, k, v.len());
            let t: Vec<char> = chars_of(text.as_str());
            let size: u128 = bytes_before(&t, t.len());
            form.prompt = cat3(head.as_str(), text.as_str(), tail.as_str());
            form.prompt_cursor = (start + size) as i32;
            form.mention_open = false;
            proof {
                assert(t@.take(t@.len() as int) =~= text@);
                assert(v@.subrange(0, j as int) =~= s.take(j as int));
                assert(v@.subrange(k as int, v@.len() as int) =~= s.skip(k as int));
            }
            true
        },
    }
}


/// How many characters stand wholly within the first `bytes` bytes.
pub open spec fn whole_chars(s: Seq<char>, bytes: int) -> int
    decreases s.len(),
{
    if s.len() == 0 || byte_len(s) <= bytes {
        s.len() as int
    } else {
        whole_chars(s.drop_last(), bytes)
    }
}

/// The form after a mention has been opened: an `@` at the cursor, which is
/// moved back to the start of a character and to the end of the prompt where
/// it lies beyond.
pub open spec fn mention_opened(form: PromptView) -> PromptView {
    let s = form.prompt;
    let k = whole_chars(s, cursor_of(form.prompt_cursor));
    PromptView {
        prompt: s.take(k) + "@"@ + s.skip(k),
        prompt_cursor: (byte_len(s.take(k)) + 1) as i32,
        mention_open: true,
    }
}

proof fn whole_chars_bounds(s: Seq<char>, bytes: int)
    ensures
        0 <= whole_chars(s, bytes) <= s.len(),
    decreases s.len(),
{
    if s.len() > 0 && byte_len(s) > bytes {
        whole_chars_bounds(s.drop_last(), bytes);
    }
}

fn count_whole(v: &Vec<char>, bytes: u128) -> (r: usize)
    ensures
        r == whole_chars(v@, bytes as int),
        r <= v.len(),
{
    let mut k: usize = v.len();
    proof {
        assert(v@.take(v@.len() as int) =~= v@);
    }
    while k > 0 && bytes_before(v, k) > bytes
        invariant
            k <= v.len(),
            whole_chars(v@, bytes as int) == whole_chars(v@.take(k as int), bytes as int),
        decreases k,
    {
        proof {
            assert(v@.take(k as int).drop_last() =~= v@.take(k - 1));
        }
        k = k - 1;
    }
    k
}

/// Begins a mention at the cursor.
pub fn open_reference_mention_ui(form: &mut PromptForm)
    ensures
        final(form)@ == mention_opened(old(form)@),
{
    let cursor: u128 = if form.prompt_cursor < 0 {
        0
    } else {
        form.prompt_cursor as u128
    };
    let v: Vec<char> = chars_of(form.prompt.as_str());
    let k: usize = count_whole(&v, cursor);
    let head: String = text_of(&v, 0, k);
    let tail: String = text_of(&v, k, v.len());
    let before: u128 = bytes_before(&v, k);
    proof {
        assert(v@.subrange(0, k as int) =~= v@.take(k as int));
        assert(v@.subrange(k as int, v@.len() as int) =~= v@.skip(k as int));
    }
    form.prompt = cat3(head.as_str(), "@", tail.as_str());
    form.prompt_cursor = (before + 1) as i32;
    form.mention_open = true;
}

} // verus!
