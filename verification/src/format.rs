//! Numbers in words and shapes: timecodes, curves, ages and colours.

use crate::generation_templates::clock_millis;
use crate::text::{
    byte_width, cat, cat3, chars_of, decimal, split, split_on, to_decimal, to_two_digits, trim,
    trim_end, trim_start, trim_start_matches, trim_start_of, trimmed, two_digits, views,
    white_space,
};
use vstd::prelude::*;
use vstd::string::*;

verus! {

/// hh:mm:ss:ff of a moment that is so many frames in.
pub open spec fn timecode(frames: nat, rate: nat) -> Seq<char> {
    let whole = frames / rate;
    two_digits(whole / 3600) + ":"@ + two_digits((whole / 60) % 60) + ":"@ + two_digits(
        whole % 60,
    ) + ":"@ + two_digits(frames % rate)
}

/// hh:mm:ss:ff, without dropped frames, of a moment that is so many frames in.
pub fn frames_timecode(frames: u64, rate: u64) -> (r: String)
    requires
        rate > 0,
    ensures
        r@ == timecode(frames as nat, rate as nat),
{
    let whole: u64 = frames / rate;
    let hours: String = cat(to_two_digits(whole / 3600).as_str(), ":");
    let minutes: String = cat3(hours.as_str(), to_two_digits((whole / 60) % 60).as_str(), ":");
    let seconds: String = cat3(minutes.as_str(), to_two_digits(whole % 60).as_str(), ":");
    cat(seconds.as_str(), to_two_digits(frames % rate).as_str())
}

/// A cubic curve of a timing function, by its two control points.
pub struct Bezier<T> {
    pub x1: T,
    pub y1: T,
    pub x2: T,
    pub y2: T,
}

/// The pieces of the text of a curve.
pub open spec fn bezier_pieces(text: Seq<char>) -> Seq<Seq<char>> {
    Seq::new(split_on(text, ',').len(), |i: int| trimmed(split_on(text, ',')[i]))
}

/// The pieces of the text of a curve, each to be read as a number.
pub fn bezier_parts(text: &str) -> (r: Vec<String>)
    ensures
        views(r@) == bezier_pieces(text@),
{
    let parts: Vec<String> = split(text, ',');
    let ghost all = views(parts@);
    let mut out: Vec<String> = Vec::new();
    let mut i: usize = 0;
    while i < parts.len()
        invariant
            i <= parts.len(),
            all == views(parts@),
            out@.len() == i,
            forall|j: int| 0 <= j < i ==> (#[trigger] out@[j])@ == trimmed(all[j]),
        decreases parts.len() - i,
    {
        out.push(trim(parts[i].as_str()));
        i = i + 1;
    }
    proof {
        assert(views(out@) =~= bezier_pieces(text@));
    }
    out
}

/// The curve that a text stands for, given what its pieces were read as: four
/// pieces that are numbers, or else the curve as it was.
pub fn parse_bezier<T: Copy>(read: &Vec<Option<T>>, fallback: Bezier<T>) -> (r: Bezier<T>)
    ensures
        if read@.len() == 4 && forall|i: int| 0 <= i < 4 ==> read@[i] is Some {
            r.x1 == read@[0]->0 && r.y1 == read@[1]->0 && r.x2 == read@[2]->0 && r.y2
                == read@[3]->0
        } else {
            r == fallback
        },
{
    if read.len() != 4 {
        return fallback;
    }
    match (read[0], read[1], read[2], read[3]) {
        (Some(x1), Some(y1), Some(x2), Some(y2)) => Bezier { x1, y1, x2, y2 },
        _ => {
            proof {
                assert(read@[0] is None || read@[1] is None || read@[2] is None || read@[3] is None);
            }
            fallback
        },
    }
}

/// The age of something in words, coarse on purpose.
pub open spec fn age_phrase(seconds: nat) -> Seq<char> {
    let minutes = seconds / 60;
    let hours = minutes / 60;
    let days = hours / 24;
    if minutes < 2 {
        "just now"@
    } else if hours < 1 {
        decimal(minutes) + " minutes ago"@
    } else if days < 1 {
        "today"@
    } else if days == 1 {
        "yesterday"@
    } else if days < 30 {
        decimal(days) + " days ago"@
    } else {
        decimal(days / 30) + " months ago"@
    }
}

/// The seconds from a moment to another; none where it lies ahead.
pub open spec fn seconds_since(opened: u64, now: u64) -> nat {
    if opened <= now {
        ((now - opened) / 1000) as nat
    } else {
        0
    }
}

/// How long ago a moment was, seen from another.
pub fn phrase_between(opened_at_millis: u64, now: u64) -> (r: String)
    ensures
        r@ == age_phrase(seconds_since(opened_at_millis, now)),
{
    let seconds: u64 = if opened_at_millis <= now {
        (now - opened_at_millis) / 1000
    } else {
        0
    };
    let minutes: u64 = seconds / 60;
    let hours: u64 = minutes / 60;
    let days: u64 = hours / 24;
    if minutes < 2 {
        "just now".to_owned()
    } else if hours < 1 {
        cat(to_decimal(minutes).as_str(), " minutes ago")
    } else if days < 1 {
        "today".to_owned()
    } else if days == 1 {
        "yesterday".to_owned()
    } else if days < 30 {
        cat(to_decimal(days).as_str(), " days ago")
    } else {
        cat(to_decimal(days / 30).as_str(), " months ago")
    }
}

/// A reading of the clock in milliseconds; 0 where it stands before the epoch.
pub open spec fn clock_reading(clock: Option<u128>) -> u64 {
    match clock {
        Some(n) => n as u64,
        None => 0,
    }
}

/// A moment in the past, in the words that a row of recent projects wants.
pub fn when_phrase(opened_at_millis: u64) -> (r: String)
    ensures
        exists|clock: Option<u128>|
            r@ == age_phrase(seconds_since(opened_at_millis, #[trigger] clock_reading(clock))),
{
    let clock: Option<u128> = clock_millis();
    let now: u64 = match clock {
        Some(n) => n as u64,
        None => 0,
    };
    proof {
        assert(now == clock_reading(clock));
    }
    phrase_between(opened_at_millis, now)
}

/// A colour with its opacity.
#[derive(Clone, Copy, PartialEq, Eq, Structural)]
pub struct Colour {
    pub red: u8,
    pub green: u8,
    pub blue: u8,
    pub alpha: u8,
}

/// The digit of base 16 for a value below 16.
pub open spec fn hex_char(d: int) -> char {
    if d < 10 {
        ('0' as int + d) as char
    } else {
        ('a' as int + d - 10) as char
    }
}

fn hex_digit(d: u8) -> (r: char)
    requires
        d < 16,
    ensures
        r == hex_char(d as int),
{
    if d < 10 {
        (48 + d) as char
    } else {
        (97 + (d - 10)) as char
    }
}

/// A byte as two digits of base 16.
pub open spec fn hex_byte(n: u8) -> Seq<char> {
    seq![hex_char(n as int / 16), hex_char(n as int % 16)]
}

fn push_byte(s: &mut String, n: u8)
    ensures
        final(s)@ == old(s)@ + hex_byte(n),
{
    s.push(hex_digit(n / 16));
    s.push(hex_digit(n % 16));
    proof {
        assert(s@ =~= old(s)@ + hex_byte(n));
    }
}

/// "#rrggbb".
pub open spec fn hex_colour(colour: Colour) -> Seq<char> {
    "#"@ + hex_byte(colour.red) + hex_byte(colour.green) + hex_byte(colour.blue)
}

/// "#rrggbb".
pub fn hex_of(colour: Colour) -> (r: String)
    ensures
        r@ == hex_colour(colour),
{
    let mut s: String = "#".to_owned();
    push_byte(&mut s, colour.red);
    push_byte(&mut s, colour.green);
    push_byte(&mut s, colour.blue);
    s
}

/// "#rrggbb", "#rrggbbaa" where the colour is translucent, and nothing where it
/// is transparent.
pub open spec fn hex_translucent(colour: Colour) -> Seq<char> {
    if colour.alpha == 0 {
        ""@
    } else if colour.alpha == 255 {
        hex_colour(colour)
    } else {
        hex_colour(colour) + hex_byte(colour.alpha)
    }
}

/// The inverse of [`colour_of`].
pub fn hex_with_alpha(colour: Colour) -> (r: String)
    ensures
        r@ == hex_translucent(colour),
{
    if colour.alpha == 0 {
        "".to_owned()
    } else {
        let mut s: String = hex_of(colour);
        if colour.alpha != 255 {
            push_byte(&mut s, colour.alpha);
        }
        s
    }
}

/// The value of a digit of base 16.
pub open spec fn hex_value(c: char) -> Option<int> {
    if '0' <= c <= '9' {
        Some(c as int - '0' as int)
    } else if 'a' <= c <= 'f' {
        Some(c as int - 'a' as int + 10)
    } else if 'A' <= c <= 'F' {
        Some(c as int - 'A' as int + 10)
    } else {
        None
    }
}

pub fn read_hex(c: char) -> (r: Option<u8>)
    ensures
        match r {
            Some(n) => hex_value(c) == Some(n as int) && n < 16,
            None => hex_value(c) is None,
        },
{
    if '0' <= c && c <= '9' {
        Some((c as u32 - 48) as u8)
    } else if 'a' <= c && c <= 'f' {
        Some((c as u32 - 97 + 10) as u8)
    } else if 'A' <= c && c <= 'F' {
        Some((c as u32 - 65 + 10) as u8)
    } else {
        None
    }
}

/// All the characters are digits of base 16.
pub open spec fn all_hex(s: Seq<char>) -> bool {
    forall|i: int| 0 <= i < s.len() ==> hex_value(#[trigger] s[i]) is Some
}

fn is_all_hex(v: &Vec<char>) -> (r: bool)
    ensures
        r == all_hex(v@),
{
    let mut i: usize = 0;
    while i < v.len()
        invariant
            i <= v.len(),
            forall|j: int| 0 <= j < i ==> hex_value(#[trigger] v@[j]) is Some,
        decreases v.len() - i,
    {
        if read_hex(v[i]).is_none() {
            return false;
        }
        i = i + 1;
    }
    true
}

/// The byte of the two digits from `at` on.
pub open spec fn byte_at(digits: Seq<char>, at: int) -> u8 {
    (16 * hex_value(digits[at])->0 + hex_value(digits[at + 1])->0) as u8
}

fn read_byte(v: &Vec<char>, at: usize) -> (r: u8)
    requires
        at + 2 <= v.len(),
        all_hex(v@),
    ensures
        r == byte_at(v@, at as int),
{
    match (read_hex(v[at]), read_hex(v[at + 1])) {
        (Some(high), Some(low)) => 16 * high + low,
        _ => 0,
    }
}

/// The digits of the text of a colour.
pub open spec fn colour_digits(hex: Seq<char>) -> Seq<char> {
    trim_start_of(trimmed(hex), '#')
}

/// The colour of a text "#rrggbb" or "#rrggbbaa"; transparent for anything
/// else.
pub open spec fn parsed_colour(hex: Seq<char>) -> Colour {
    let digits = colour_digits(hex);
    if all_hex(digits) && (digits.len() == 6 || digits.len() == 8) {
        Colour {
            red: byte_at(digits, 0),
            green: byte_at(digits, 2),
            blue: byte_at(digits, 4),
            alpha: if digits.len() == 8 {
                byte_at(digits, 6)
            } else {
                255
            },
        }
    } else {
        Colour { red: 0, green: 0, blue: 0, alpha: 0 }
    }
}

/// The colour of a text "#rrggbb" or "#rrggbbaa", or transparent for anything
/// else, which is how "no plate" is stored.
pub fn colour_of(hex: &str) -> (r: Colour)
    ensures
        r == parsed_colour(hex@),
{
    let short: String = trim(hex);
    let digits: String = trim_start_matches(short.as_str(), '#');
    let v: Vec<char> = chars_of(digits.as_str());
    if is_all_hex(&v) && (v.len() == 6 || v.len() == 8) {
        Colour {
            red: read_byte(&v, 0),
            green: read_byte(&v, 2),
            blue: read_byte(&v, 4),
            alpha: if v.len() == 8 {
                read_byte(&v, 6)
            } else {
                255
            },
        }
    } else {
        Colour { red: 0, green: 0, blue: 0, alpha: 0 }
    }
}

proof fn hex_char_reads(d: int)
    requires
        0 <= d < 16,
    ensures
        hex_value(hex_char(d)) == Some(d),
        byte_width(hex_char(d)) == 1,
        !white_space(hex_char(d)),
        hex_char(d) != '#',
{
}

proof fn reads_back(s: Seq<char>, at: int, n: u8)
    requires
        0 <= at,
        at + 2 <= s.len(),
        s[at] == hex_char(n as int / 16),
        s[at + 1] == hex_char(n as int % 16),
    ensures
        byte_at(s, at) == n,
{
    hex_char_reads(n as int / 16);
    hex_char_reads(n as int % 16);
}

/// A colour that is not transparent survives being written and read.
pub proof fn colours_survive(colour: Colour)
    requires
        colour.alpha != 0,
    ensures
        parsed_colour(hex_translucent(colour)) == colour,
{
    let text = hex_translucent(colour);
    let rgb = hex_byte(colour.red) + hex_byte(colour.green) + hex_byte(colour.blue);
    let digits = if colour.alpha == 255 {
        rgb
    } else {
        rgb + hex_byte(colour.alpha)
    };
    reveal_strlit("#");
    assert(text =~= seq!['#'] + digits);
    assert forall|i: int| 0 <= i < digits.len() implies hex_value(#[trigger] digits[i]) is Some
        && !white_space(digits[i]) && digits[i] != '#' by {
        let n: u8 = if i < 2 {
            colour.red
        } else if i < 4 {
            colour.green
        } else if i < 6 {
            colour.blue
        } else {
            colour.alpha
        };
        hex_char_reads(n as int / 16);
        hex_char_reads(n as int % 16);
        assert(digits[i] == hex_byte(n)[i % 2]);
    }
    assert(!white_space('#'));
    assert(trim_start(text) == text);
    assert(text.last() == digits.last());
    assert(trim_end(text) == text);
    assert(text.drop_first() =~= digits);
    assert(trim_start_of(digits, '#') == digits);
    assert(colour_digits(text) == digits) by {
        reveal_with_fuel(trim_start_of, 2);
    }
    reads_back(digits, 0, colour.red);
    reads_back(digits, 2, colour.green);
    reads_back(digits, 4, colour.blue);
    if colour.alpha != 255 {
        reads_back(digits, 6, colour.alpha);
    }
}

/// A colour is written red first, then green, then blue, each as two digits of
/// base 16, the higher one first.
pub proof fn colours_are_written_red_first(colour: Colour)
    ensures
        ({
            let text = hex_colour(colour);
            &&& text.len() == 7 && text[0] == '#'
            &&& hex_value(text[1]) is Some && hex_value(text[2]) is Some && 16 * hex_value(
                text[1],
            )->0 + hex_value(text[2])->0 == colour.red
            &&& hex_value(text[3]) is Some && hex_value(text[4]) is Some && 16 * hex_value(
                text[3],
            )->0 + hex_value(text[4])->0 == colour.green
            &&& hex_value(text[5]) is Some && hex_value(text[6]) is Some && 16 * hex_value(
                text[5],
            )->0 + hex_value(text[6])->0 == colour.blue
        }),
{
    reveal_strlit("#");
    let text = hex_colour(colour);
    assert(text =~= seq!['#'] + hex_byte(colour.red) + hex_byte(colour.green) + hex_byte(
        colour.blue,
    ));
    hex_char_reads(colour.red as int / 16);
    hex_char_reads(colour.red as int % 16);
    hex_char_reads(colour.green as int / 16);
    hex_char_reads(colour.green as int % 16);
    hex_char_reads(colour.blue as int / 16);
    hex_char_reads(colour.blue as int % 16);
}

/// The digits of base 16 count from 0 to 15, in small letters and in capitals.
pub proof fn digits_count_up()
    ensures
        forall|c: char| '0' <= c <= '9' ==> #[trigger] hex_value(c) == Some(c as int - 48),
        forall|c: char| 'a' <= c <= 'f' ==> #[trigger] hex_value(c) == Some(c as int - 87),
        forall|c: char| 'A' <= c <= 'F' ==> #[trigger] hex_value(c) == Some(c as int - 55),
{
}

/// A timecode reads hours, minutes, seconds and frames, in this order.
pub proof fn timecodes_read_hours_to_frames(
    hours: nat,
    minutes: nat,
    seconds: nat,
    frames: nat,
    rate: nat,
)
    requires
        minutes < 60,
        seconds < 60,
        frames < rate,
    ensures
        timecode(((hours * 60 + minutes) * 60 + seconds) * rate + frames, rate) == two_digits(hours)
            + ":"@ + two_digits(minutes) + ":"@ + two_digits(seconds) + ":"@ + two_digits(frames),
{
    let whole = (hours * 60 + minutes) * 60 + seconds;
    vstd::arithmetic::div_mod::lemma_fundamental_div_mod_converse(
        (whole * rate + frames) as int,
        rate as int,
        whole as int,
        frames as int,
    );
    assert(whole / 3600 == hours && (whole / 60) % 60 == minutes && whole % 60 == seconds);
}

/// An age is told in the unit that fits it: minutes below an hour, days below a
/// month, months beyond.
pub proof fn ages_are_told_in_their_unit(seconds: nat)
    ensures
        seconds < 120 ==> age_phrase(seconds) == "just now"@,
        120 <= seconds < 3600 ==> age_phrase(seconds) == decimal(seconds / 60) + " minutes ago"@,
        3600 <= seconds < 86400 ==> age_phrase(seconds) == "today"@,
        86400 <= seconds < 172800 ==> age_phrase(seconds) == "yesterday"@,
        172800 <= seconds < 2592000 ==> age_phrase(seconds) == decimal(seconds / 86400)
            + " days ago"@,
        2592000 <= seconds ==> age_phrase(seconds) == decimal(seconds / 2592000)
            + " months ago"@,
{
    assert(((seconds / 60) / 60) / 24 == seconds / 86400);
    assert((seconds / 86400) / 30 == seconds / 2592000);
}

/// The time since a moment is the distance to it, in whole seconds; what lies
/// ahead is no time ago.
pub proof fn ages_count_from_the_moment(opened: u64, now: u64)
    ensures
        opened <= now ==> seconds_since(opened, now) * 1000 <= now - opened < (seconds_since(
            opened,
            now,
        ) + 1) * 1000,
        opened > now ==> seconds_since(opened, now) == 0,
{
}

} // verus!
