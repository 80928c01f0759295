//! Mentions in a prompt: how they are written, read and renumbered, seen from
//! outside.

use crate::cloud::actions::{reference_dropped, reference_mentioned};
use crate::cloud::client::ClientView;
use crate::cloud::mentions::{
    cons, cursor_of, label_at, mention_opened, mention_span, next_of, pieces, rendered, token_at,
    token_text, whole_chars, Piece, PromptView,
};
use crate::cloud::references::{
    label_of_kind, number_of, place_of_client, prompt_without, ready_client,
};
use crate::lists::{first_from_found, first_where};
use crate::text::{
    all_digits, at_byte, at_byte_unique, byte_len, byte_len_concat, decimal, last_of,
    last_places_are_last, numbers_read_back, occurs_at, parsed,
};
use vstd::prelude::*;

verus! {

/// A label that a mention can have.
pub open spec fn is_label(label: Seq<char>) -> bool {
    label == "图片"@ || label == "视频"@ || label == "音频"@
}

proof fn labels_differ()
    ensures
        "图片"@.len() == 2 && "图片"@[0] == '图',
        "视频"@.len() == 2 && "视频"@[0] == '视',
        "音频"@.len() == 2 && "音频"@[0] == '音',
        "@["@.len() == 2 && "@["@[0] == '@' && "@["@[1] == '[',
        "]"@.len() == 1 && "]"@[0] == ']',
{
    reveal_strlit("图片");
    reveal_strlit("视频");
    reveal_strlit("音频");
    reveal_strlit("@[");
    reveal_strlit("]");
}

proof fn next_is_found(s: Seq<char>, from: int, at: int, c: char)
    requires
        0 <= from <= at < s.len(),
        s[at] == c,
        forall|i: int| from <= i < at ==> #[trigger] s[i] != c,
    ensures
        next_of(s, from, c) == Some(at),
    decreases at - from,
{
    if from < at {
        assert(s[from] != c);
        next_is_found(s, from + 1, at, c);
    }
}

/// A mention that is written somewhere in a text is read there as what it
/// mentions, up to its end.
pub proof fn mentions_are_read_as_written(s: Seq<char>, i: int, label: Seq<char>, number: nat)
    requires
        is_label(label),
        number <= usize::MAX,
        occurs_at(s, token_text(label, number), i),
    ensures
        token_at(s, i) == Some((label, number, i + token_text(label, number).len())),
{
    labels_differ();
    let token = token_text(label, number);
    let digits = decimal(number);
    let n = digits.len() as int;
    numbers_read_back(number, usize::MAX as nat);
    let here = s.subrange(i, i + token.len());
    assert(token =~= "@["@ + label + digits + "]"@);
    assert(token.len() == 5 + n);
    assert forall|k: int| 0 <= k < token.len() implies s[i + k] == #[trigger] token[k] by {
        assert(here[k] == s[i + k]);
    }
    assert(s.subrange(i, i + 2) =~= "@["@) by {
        assert(token[0] == '@' && token[1] == '[');
    }
    assert(s.subrange(i + 2, i + 4) =~= label) by {
        assert(token[2] == label[0] && token[3] == label[1]);
    }
    assert(s[i + 2] == label[0]) by {
        assert(token[2] == label[0]);
    }
    if occurs_at(s, "图片"@, i + 2) {
        assert(s.subrange(i + 2, i + 4)[0] == '图');
    }
    if occurs_at(s, "视频"@, i + 2) {
        assert(s.subrange(i + 2, i + 4)[0] == '视');
    }
    if occurs_at(s, "音频"@, i + 2) {
        assert(s.subrange(i + 2, i + 4)[0] == '音');
    }
    assert(label_at(s, i + 2) == Some(label));
    let from = i + 4;
    let at = from + n;
    assert(s[at] == ']') by {
        assert(token[4 + n] == ']');
    }
    assert forall|k: int| from <= k < at implies #[trigger] s[k] != ']' by {
        assert(token[k - i] == digits[k - from]);
        assert(s[i + (k - i)] == token[k - i]);
        assert(all_digits(digits)) by {
            assert(parsed(digits, usize::MAX as nat) == Some(number));
            assert(crate::text::unsigned_part(digits) == digits) by {
                decimal_begins_with_a_digit(number);
            }
        }
        assert(crate::text::ascii_digit(digits[k - from]));
    }
    next_is_found(s, from, at, ']');
    assert(s.subrange(from, at) =~= digits) by {
        assert forall|k: int| 0 <= k < n implies #[trigger] s.subrange(from, at)[k]
            == digits[k] by {
            assert(s[i + (4 + k)] == token[4 + k]);
        }
    }
}

proof fn decimal_begins_with_a_digit(n: nat)
    ensures
        decimal(n).len() > 0,
        crate::text::ascii_digit(decimal(n)[0]),
    decreases n,
{
    if n >= 10 {
        decimal_begins_with_a_digit(n / 10);
        assert(decimal(n)[0] == decimal(n / 10)[0]);
    }
}

/// A prompt that is one mention is read as that mention.
pub proof fn lone_mentions_are_one_piece(label: Seq<char>, number: nat)
    requires
        is_label(label),
        number <= usize::MAX,
    ensures
        pieces(token_text(label, number), 0) == seq![Piece::Mention(label, number)],
{
    let token = token_text(label, number);
    assert(token.subrange(0, token.len() as int) =~= token);
    labels_differ();
    mentions_are_read_as_written(token, 0, label, number);
    assert(pieces(token, token.len() as int) =~= Seq::<Piece>::empty());
    assert(cons(Piece::Mention(label, number), Seq::<Piece>::empty()) =~= seq![
        Piece::Mention(label, number),
    ]);
}

/// A mention of a reference that goes is marked as removed; one of a later
/// reference of its medium moves down by one, and every other stays.
pub proof fn mentions_follow_what_is_left(
    label: Seq<char>,
    number: nat,
    other: Seq<char>,
    n: nat,
)
    requires
        is_label(label),
        is_label(other),
        n <= usize::MAX,
    ensures
        ({
            let now = prompt_without(token_text(other, n), label, number);
            &&& other == label && n == number ==> now == "[已移除参考"@ + label + "]"@
            &&& other == label && n > number ==> now == token_text(label, (n - 1) as nat)
            &&& other == label && n < number ==> now == token_text(label, n)
            &&& other != label ==> now == token_text(other, n)
        }),
{
    lone_mentions_are_one_piece(other, n);
    let one = seq![Piece::Mention(other, n)];
    assert(one.drop_first().len() == 0);
    reveal_with_fuel(rendered, 2);
    let g = crate::cloud::references::renumbered(label, number);
    assert(prompt_without(token_text(other, n), label, number) =~= g(other, n));
}

/// A reference that is taken out leaves the others in their order, is no longer
/// sent, and has the quote asked for anew; one that is not there changes
/// nothing.
pub proof fn references_are_taken_out(c: ClientView, id: Seq<char>, i: int)
    requires
        place_of_client(c.studio.references, id) == Some(i),
        0 <= i < c.studio.references.len(),
    ensures
        ({
            let (now, steps) = reference_dropped(c, id);
            let all = c.studio.references;
            &&& now.studio.references.len() == all.len() - 1
            &&& forall|k: int|
                0 <= k < i ==> #[trigger] now.studio.references[k] == all[k]
            &&& forall|k: int|
                i <= k < all.len() - 1 ==> #[trigger] now.studio.references[k] == all[k + 1]
            &&& all[i].text("kind"@) == "image"@ ==> now.studio.prompt.prompt == prompt_without(
                c.studio.prompt.prompt,
                "图片"@,
                number_of(all, i),
            )
            &&& !now.studio.prompt.mention_open
            &&& steps.last() == crate::cloud::steps::StepView::RefreshQuote
            &&& now.studio.form == c.studio.form
        }),
{
    crate::cloud::asking::media_differ();
}

/// A reference that is chosen while a mention is typed is mentioned in its
/// place: what was typed from the `@` to the cursor gives way to the mention
/// and a blank, and all else of the prompt stays. The cursor comes behind it.
pub proof fn typed_mentions_become_mentions(c: ClientView, id: Seq<char>, i: int, j: int, k: int)
    requires
        first_where(c.studio.references, ready_client(id)) == Some(i),
        number_of(c.studio.references, i) <= usize::MAX,
        mention_span(c.studio.prompt.prompt, cursor_of(c.studio.prompt.prompt_cursor)) == Some(
            (j, k),
        ),
    ensures
        ({
            let (now, steps) = reference_mentioned(c, id);
            let s = c.studio.prompt.prompt;
            let t = now.studio.prompt.prompt;
            let label = label_of_kind(c.studio.references[i].text("kind"@));
            let token = token_text(label, number_of(c.studio.references, i));
            let end = j + token.len();
            &&& 0 <= i < c.studio.references.len() && c.studio.references[i].text("client_id"@)
                == id
            &&& 0 <= j < k <= s.len() && s[j] == '@' && byte_len(s.take(k)) == cursor_of(
                c.studio.prompt.prompt_cursor,
            )
            &&& t.take(j) == s.take(j)
            &&& token_at(t, j) == Some((label, number_of(c.studio.references, i), end as int))
            &&& t[end as int] == ' '
            &&& t.skip(end + 1) == s.skip(k)
            &&& byte_len(t.take(end + 1)) <= i32::MAX ==> now.studio.prompt.prompt_cursor
                == byte_len(t.take(end + 1))
            &&& !now.studio.prompt.mention_open
            &&& now.studio.references == c.studio.references
        }),
{
    let all = c.studio.references;
    let s = c.studio.prompt.prompt;
    first_from_found(all, ready_client(id), 0);
    let cursor = cursor_of(c.studio.prompt.prompt_cursor);
    let chosen = choose|k: int| at_byte(s, cursor, k);
    assert(at_byte(s, cursor, chosen));
    last_places_are_last(s.take(k), '@');
    assert(s.take(k)[j] == s[j]);
    let label = label_of_kind(all[i].text("kind"@));
    let number = number_of(all, i);
    let token = token_text(label, number);
    reveal_strlit(" ");
    let text = token + " "@;
    let t = reference_mentioned(c, id).0.studio.prompt.prompt;
    let end = j + token.len();
    assert(t =~= s.take(j) + text + s.skip(k));
    assert(t.take(j) =~= s.take(j));
    assert(t.subrange(j, j + token.len()) =~= token);
    mentions_are_read_as_written(t, j, label, number);
    assert(t.skip(end + 1) =~= s.skip(k));
    assert(t.take(end + 1) =~= s.take(j) + text);
    byte_len_concat(s.take(j), text);
}

proof fn whole_chars_are_before(s: Seq<char>, bytes: int)
    requires
        bytes >= 0,
    ensures
        0 <= whole_chars(s, bytes) <= s.len(),
        byte_len(s.take(whole_chars(s, bytes))) <= bytes,
        whole_chars(s, bytes) < s.len() ==> byte_len(s.take(whole_chars(s, bytes) + 1)) > bytes,
    decreases s.len(),
{
    assert(s.take(s.len() as int) =~= s);
    if s.len() > 0 && byte_len(s) > bytes {
        let front = s.drop_last();
        whole_chars_are_before(front, bytes);
        let k = whole_chars(front, bytes);
        assert(s.take(k) =~= front.take(k));
        if k < front.len() {
            assert(s.take(k + 1) =~= front.take(k + 1));
        } else {
            assert(s.take(k + 1) =~= s);
        }
    }
}

/// A mention that is opened by its button begins at the cursor, which stands
/// behind its `@`, and is then being typed; the rest of the prompt stays.
pub proof fn opened_mentions_are_typed(form: PromptView)
    requires
        form.prompt_cursor >= 0,
        form.prompt_cursor < i32::MAX,
    ensures
        ({
            let now = mention_opened(form);
            let k = whole_chars(form.prompt, form.prompt_cursor as int);
            &&& 0 <= k <= form.prompt.len()
            &&& now.prompt.take(k) == form.prompt.take(k) && now.prompt[k] == '@'
                && now.prompt.skip(k + 1) == form.prompt.skip(k)
            &&& byte_len(form.prompt.take(k)) <= form.prompt_cursor
            &&& k < form.prompt.len() ==> byte_len(form.prompt.take(k + 1)) > form.prompt_cursor
            &&& now.mention_open
            &&& mention_span(now.prompt, cursor_of(now.prompt_cursor)) == Some((k, k + 1))
        }),
{
    reveal_strlit("@");
    let s = form.prompt;
    let k = whole_chars(s, form.prompt_cursor as int);
    whole_chars_are_before(s, form.prompt_cursor as int);
    let now = mention_opened(form);
    let t = now.prompt;
    assert(t =~= s.take(k) + "@"@ + s.skip(k));
    assert(t.take(k) =~= s.take(k));
    assert(t.skip(k + 1) =~= s.skip(k));
    assert(t.take(k + 1) =~= s.take(k) + "@"@);
    byte_len_concat(s.take(k), "@"@);
    assert("@"@.drop_last() =~= Seq::<char>::empty());
    reveal_with_fuel(byte_len, 2);
    assert(byte_len("@"@) == 1);
    let cursor = cursor_of(now.prompt_cursor);
    assert(at_byte(t, cursor, k + 1));
    let chosen = choose|n: int| at_byte(t, cursor, n);
    at_byte_unique(t, cursor, chosen, k + 1);
    let front = t.take(k + 1);
    assert(front.last() == '@');
    assert(last_of(front, '@') == Some(k));
}

} // verus!
