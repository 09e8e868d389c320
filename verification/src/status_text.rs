//! The texts of the detailed status: a number in decimal digits, and the
//! short form of a date such as `Tue Mar 18 2025 03:18:12 GMT-0400`, which
//! is written `MAR 18 03:18` on the display.

use vstd::prelude::*;
use crate::framebuffer::decimal_digits;
use crate::layers::decimal;

verus! {

/// Whether a character is white space, as Unicode counts it: tab to
/// carriage return, the space, the next-line character, the no-break
/// space, and the spaces and separators from U+1680 on.
pub open spec fn is_white_space(c: char) -> bool {
    let code = c as u32;
    ||| 0x0009 <= code <= 0x000D
    ||| code == 0x0020
    ||| code == 0x0085
    ||| code == 0x00A0
    ||| code == 0x1680
    ||| 0x2000 <= code <= 0x200A
    ||| code == 0x2028
    ||| code == 0x2029
    ||| code == 0x202F
    ||| code == 0x205F
    ||| code == 0x3000
}

/// What `str::to_uppercase` makes of a text.
pub uninterp spec fn uppercase(text: Seq<char>) -> Seq<char>;

/// `char::is_whitespace`: whether the character has Unicode's property
/// White_Space. The contract writes out the characters that have it.
#[verifier::external_body]
fn char_is_whitespace(c: char) -> (white: bool)
    ensures
        white == is_white_space(c),
{
    c.is_whitespace()
}

/// `str::to_uppercase`, on a text that is handed over and taken back as its
/// characters. The contract gives the result a name and claims no more.
#[verifier::external_body]
fn to_uppercase(text: &[char]) -> (upper: Vec<char>)
    ensures
        upper@ == uppercase(text@),
{
    let owned: String = text.iter().collect();
    owned.to_uppercase().chars().collect()
}

/// The characters of a text.
pub fn chars_of(text: &str) -> (chars: Vec<char>)
    ensures
        chars@ == text@,
{
    let mut chars: Vec<char> = Vec::new();
    for c in it: text.chars()
        invariant
            it.seq() == text@,
            chars@ == text@.subrange(0, it.index() as int),
    {
        chars.push(c);
    }
    assert(text@.subrange(0, text@.len() as int) == text@);
    chars
}

/// Appends the characters of `more` to `out`.
pub fn push_chars(out: &mut Vec<char>, more: &[char])
    ensures
        final(out)@ == old(out)@ + more@,
{
    let mut i: usize = 0;
    while i < more.len()
        invariant
            i <= more@.len(),
            out@ == old(out)@ + more@.subrange(0, i as int),
        decreases more@.len() - i,
    {
        out.push(more[i]);
        i += 1;
    }
    assert(more@.subrange(0, i as int) == more@);
}

/// The character of a decimal digit.
pub open spec fn digit_char(digit: u8) -> char {
    (48u8 + digit) as char
}

/// The text of a number in decimal digits.
pub open spec fn decimal_text(n: nat) -> Seq<char> {
    Seq::new(decimal(n).len(), |i: int| digit_char(decimal(n)[i]))
}

/// The text of a number in decimal digits.
pub fn decimal_chars(n: usize) -> (text: Vec<char>)
    ensures
        text@ == decimal_text(n as nat),
{
    let digits: Vec<u8> = decimal_digits(n);
    let mut text: Vec<char> = Vec::new();
    let mut i: usize = 0;
    while i < digits.len()
        invariant
            i <= digits@.len(),
            digits@ == decimal(n as nat),
            forall|k: int| 0 <= k < digits@.len() ==> digits@[k] <= 9,
            text@.len() == i,
            forall|k: int| 0 <= k < i ==> text@[k] == digit_char(digits@[k]),
        decreases digits@.len() - i,
    {
        text.push((48u8 + digits[i]) as char);
        i += 1;
    }
    assert(text@ =~= decimal_text(n as nat));
    text
}

/// Whether the letters `GMT` stand somewhere in a text.
pub open spec fn has_gmt(text: Seq<char>) -> bool {
    exists|i: int|
        0 <= i && i + 3 <= text.len() && #[trigger] text[i] == 'G' && text[i + 1] == 'M' && text[i
            + 2] == 'T'
}

/// The number of spaces in a text.
pub open spec fn spaces_in(text: Seq<char>) -> nat
    decreases text.len(),
{
    if text.len() == 0 {
        0
    } else {
        spaces_in(text.drop_last()) + if text.last() == ' ' {
            1nat
        } else {
            0nat
        }
    }
}

/// The words of a text: its longest runs of characters that are not white
/// space, in their order.
pub open spec fn words(text: Seq<char>) -> Seq<Seq<char>>
    decreases text.len(),
{
    if text.len() == 0 {
        Seq::empty()
    } else {
        let before = words(text.drop_last());
        if is_white_space(text.last()) {
            before
        } else if text.len() >= 2 && !is_white_space(text[text.len() - 2]) {
            before.update(before.len() - 1, before.last().push(text.last()))
        } else {
            before.push(seq![text.last()])
        }
    }
}

/// The pieces into which the character `sep` cuts a text. A text without
/// `sep` is one piece, and so is the empty text.
pub open spec fn pieces(text: Seq<char>, sep: char) -> Seq<Seq<char>>
    decreases text.len(),
{
    if text.len() == 0 {
        seq![Seq::<char>::empty()]
    } else {
        let before = pieces(text.drop_last(), sep);
        if text.last() == sep {
            before.push(Seq::empty())
        } else {
            before.update(before.len() - 1, before.last().push(text.last()))
        }
    }
}

/// The time of day of a date without its seconds: what stands before the
/// second colon, or all of it where there is no colon.
pub open spec fn short_time(time: Seq<char>) -> Seq<char> {
    let parts = pieces(time, ':');
    if parts.len() >= 2 {
        parts[0] + seq![':'] + parts[1]
    } else {
        time
    }
}

/// The short form of a date. A text counts as a date if it holds `GMT` or
/// four spaces at least, and has a short form if it has five words at
/// least: the second word in capitals, the third, and the time of day from
/// the fifth, with a space between them.
pub open spec fn short_date(text: Seq<char>) -> Option<Seq<char>> {
    if looks_like_date(text) && words(text).len() >= 5 {
        Some(
            uppercase(words(text)[1]) + seq![' '] + words(text)[2] + seq![' '] + short_time(
                words(text)[4],
            ),
        )
    } else {
        None
    }
}

/// Whether a text counts as a date: it holds `GMT`, or four spaces at least.
pub open spec fn looks_like_date(text: Seq<char>) -> bool {
    has_gmt(text) || spaces_in(text) >= 4
}

/// Whether a text is a word: it has a character, and none that is white
/// space.
pub open spec fn is_word(text: Seq<char>) -> bool {
    text.len() > 0 && forall|i: int| 0 <= i < text.len() ==> !is_white_space(#[trigger] text[i])
}

/// The texts of `parts`, one after the other with a space between them.
pub open spec fn joined(parts: Seq<Seq<char>>) -> Seq<char>
    decreases parts.len(),
{
    if parts.len() == 0 {
        Seq::empty()
    } else if parts.len() == 1 {
        parts[0]
    } else {
        joined(parts.drop_last()) + seq![' '] + parts.last()
    }
}

/// A word behind the beginning of a text, or behind white space, is a word
/// of its own behind the words that the text had.
pub proof fn lemma_words_append(text: Seq<char>, word: Seq<char>)
    requires
        text.len() == 0 || is_white_space(text.last()),
        is_word(word),
    ensures
        words(text + word) == words(text).push(word),
    decreases word.len(),
{
    let all = text + word;
    assert(all.last() == word.last());
    if word.len() == 1 {
        assert(all.drop_last() == text);
        assert(word == seq![word.last()]);
        if all.len() >= 2 {
            assert(all[all.len() - 2] == text.last());
        }
    } else {
        let shorter = word.drop_last();
        assert(is_word(shorter)) by {
            assert forall|i: int| 0 <= i < shorter.len() implies !is_white_space(
                #[trigger] shorter[i],
            ) by {
                assert(shorter[i] == word[i]);
            }
        }
        lemma_words_append(text, shorter);
        assert(all.drop_last() == text + shorter);
        assert(all[all.len() - 2] == shorter.last());
        assert(shorter.last() == word[word.len() - 2]);
        assert(shorter.push(word.last()) == word);
        assert(words(text).push(shorter).update(words(text).len() as int, word) == words(
            text,
        ).push(word));
    }
}

/// The words of words that are joined by spaces are those words.
pub proof fn lemma_words_of_joined(parts: Seq<Seq<char>>)
    requires
        forall|i: int| 0 <= i < parts.len() ==> is_word(#[trigger] parts[i]),
    ensures
        words(joined(parts)) == parts,
        parts.len() > 0 ==> joined(parts).len() > 0 && !is_white_space(joined(parts).last()),
    decreases parts.len(),
{
    if parts.len() == 0 {
    } else if parts.len() == 1 {
        lemma_words_append(Seq::empty(), parts[0]);
        assert(Seq::<char>::empty() + parts[0] == parts[0]);
        assert(Seq::<Seq<char>>::empty().push(parts[0]) == parts);
        assert(parts[0].last() == parts[0][parts[0].len() - 1]);
    } else {
        let before = parts.drop_last();
        let last = parts.last();
        assert(forall|i: int| 0 <= i < before.len() ==> before[i] == parts[i]);
        lemma_words_of_joined(before);
        let spaced = joined(before).push(' ');
        assert(spaced.drop_last() == joined(before));
        assert(words(spaced) == before);
        lemma_words_append(spaced, last);
        assert(spaced + last == joined(before) + seq![' '] + last);
        assert(before.push(last) == parts);
        assert(joined(parts).last() == last[last.len() - 1]);
    }
}

/// A text has no fewer spaces than any of its beginnings.
pub proof fn lemma_spaces_grow(text: Seq<char>, more: Seq<char>)
    ensures
        spaces_in(text + more) >= spaces_in(text),
    decreases more.len(),
{
    if more.len() == 0 {
        assert(text + more == text);
    } else {
        lemma_spaces_grow(text, more.drop_last());
        assert((text + more).drop_last() == text + more.drop_last());
    }
}

/// Words that are joined by spaces have a space less than there are words,
/// at least.
pub proof fn lemma_spaces_of_joined(parts: Seq<Seq<char>>)
    requires
        parts.len() > 0,
    ensures
        spaces_in(joined(parts)) >= parts.len() - 1,
    decreases parts.len(),
{
    if parts.len() > 1 {
        let before = parts.drop_last();
        lemma_spaces_of_joined(before);
        let spaced = joined(before).push(' ');
        assert(spaced.drop_last() == joined(before));
        lemma_spaces_grow(spaced, parts.last());
        assert(spaced + parts.last() == joined(before) + seq![' '] + parts.last());
    }
}

/// Five words or more that are joined by spaces are a date with a short
/// form: the second word in capitals, the third, and the time of day from
/// the fifth. So `Tue Mar 18 2025 03:18:12 GMT-0400` is shortened to what
/// `Mar` is in capitals, `18`, and the short form of `03:18:12`.
pub proof fn lemma_short_date_of_joined(parts: Seq<Seq<char>>)
    requires
        parts.len() >= 5,
        forall|i: int| 0 <= i < parts.len() ==> is_word(#[trigger] parts[i]),
    ensures
        short_date(joined(parts)) == Some(
            uppercase(parts[1]) + seq![' '] + parts[2] + seq![' '] + short_time(parts[4]),
        ),
{
    lemma_words_of_joined(parts);
    lemma_spaces_of_joined(parts);
}

/// Whether a text holds no colon.
pub open spec fn colon_free(text: Seq<char>) -> bool {
    forall|i: int| 0 <= i < text.len() ==> #[trigger] text[i] != ':'
}

/// A text without the character `sep` behind a text goes on the last piece
/// of that text.
pub proof fn lemma_pieces_append(text: Seq<char>, part: Seq<char>, sep: char)
    requires
        forall|i: int| 0 <= i < part.len() ==> #[trigger] part[i] != sep,
    ensures
        pieces(text, sep).len() >= 1,
        pieces(text + part, sep) == pieces(text, sep).update(
            pieces(text, sep).len() - 1,
            pieces(text, sep).last() + part,
        ),
    decreases part.len(), text.len(),
{
    if text.len() > 0 {
        lemma_pieces_append(text.drop_last(), Seq::empty(), sep);
        assert(text.drop_last() + Seq::<char>::empty() == text.drop_last());
    }
    let old_pieces = pieces(text, sep);
    if part.len() == 0 {
        assert(text + part == text);
        assert(old_pieces.last() + part == old_pieces.last());
        assert(old_pieces.update(old_pieces.len() - 1, old_pieces.last()) == old_pieces);
    } else {
        let shorter = part.drop_last();
        assert(forall|i: int| 0 <= i < shorter.len() ==> shorter[i] == part[i]);
        lemma_pieces_append(text, shorter, sep);
        let all = text + part;
        assert(all.drop_last() == text + shorter);
        assert(all.last() == part.last());
        assert(part.last() == part[part.len() - 1]);
        assert((old_pieces.last() + shorter).push(part.last()) == old_pieces.last() + part);
        assert(old_pieces.update(old_pieces.len() - 1, old_pieces.last() + shorter).update(
            old_pieces.len() - 1,
            old_pieces.last() + part,
        ) == old_pieces.update(old_pieces.len() - 1, old_pieces.last() + part));
    }
}

/// A time of day of hours, minutes and seconds with colons between them is
/// shortened to the hours and the minutes.
pub proof fn lemma_short_time_of_three(hours: Seq<char>, minutes: Seq<char>, seconds: Seq<char>)
    requires
        colon_free(hours),
        colon_free(minutes),
        colon_free(seconds),
    ensures
        short_time(hours + seq![':'] + minutes + seq![':'] + seconds) == hours + seq![':']
            + minutes,
{
    let none = Seq::<char>::empty();
    let a = hours;
    let b = a.push(':');
    let c = b + minutes;
    let d = c.push(':');
    let e = d + seconds;
    lemma_pieces_append(none, hours, ':');
    assert(none + hours == hours);
    assert(pieces(none, ':') == seq![none]);
    assert(none + hours == hours);
    assert(pieces(a, ':') == seq![hours]);
    assert(b.drop_last() == a);
    assert(pieces(b, ':') == seq![hours, none]);
    lemma_pieces_append(b, minutes, ':');
    assert(none + minutes == minutes);
    assert(pieces(c, ':') == seq![hours, minutes]);
    assert(d.drop_last() == c);
    assert(pieces(d, ':') == seq![hours, minutes, none]);
    lemma_pieces_append(d, seconds, ':');
    assert(pieces(e, ':').len() == 3);
    assert(pieces(e, ':')[0] == hours && pieces(e, ':')[1] == minutes);
    assert(e == hours + seq![':'] + minutes + seq![':'] + seconds);
}

/// What each of the texts holds.
pub open spec fn text_views(texts: Seq<Vec<char>>) -> Seq<Seq<char>> {
    Seq::new(texts.len(), |i: int| texts[i]@)
}

/// Whether the letters `GMT` stand somewhere in a text.
pub fn contains_gmt(text: &[char]) -> (found: bool)
    ensures
        found == has_gmt(text@),
{
    if text.len() < 3 {
        return false;
    }
    let last: usize = text.len() - 3;
    let mut i: usize = 0;
    while i <= last
        invariant
            3 <= text@.len(),
            last == text@.len() - 3,
            i <= last + 1,
            forall|j: int|
                0 <= j < i ==> !(#[trigger] text@[j] == 'G' && text@[j + 1] == 'M' && text@[j + 2]
                    == 'T'),
        decreases text@.len() - i,
    {
        if text[i] == 'G' && text[i + 1] == 'M' && text[i + 2] == 'T' {
            return true;
        }
        i += 1;
    }
    false
}

/// The number of spaces in a text.
pub fn count_spaces(text: &[char]) -> (count: usize)
    ensures
        count == spaces_in(text@),
{
    let mut count: usize = 0;
    let mut i: usize = 0;
    assert(text@.subrange(0, 0).len() == 0);
    while i < text.len()
        invariant
            i <= text@.len(),
            count <= i,
            count == spaces_in(text@.subrange(0, i as int)),
        decreases text@.len() - i,
    {
        assert(text@.subrange(0, i + 1).drop_last() == text@.subrange(0, i as int));
        if text[i] == ' ' {
            count += 1;
        }
        i += 1;
    }
    assert(text@.subrange(0, i as int) == text@);
    count
}

/// The words of a text.
pub fn split_words(text: &[char]) -> (found: Vec<Vec<char>>)
    ensures
        text_views(found@) == words(text@),
{
    let mut found: Vec<Vec<char>> = Vec::new();
    let mut word: Vec<char> = Vec::new();
    let mut in_word: bool = false;
    let mut i: usize = 0;
    assert(text@.subrange(0, 0).len() == 0);
    assert(text_views(found@) == Seq::<Seq<char>>::empty());
    while i < text.len()
        invariant
            i <= text@.len(),
            in_word <==> i > 0 && !is_white_space(text@[i - 1]),
            !in_word ==> word@.len() == 0,
            words(text@.subrange(0, i as int)) == (if in_word {
                text_views(found@).push(word@)
            } else {
                text_views(found@)
            }),
        decreases text@.len() - i,
    {
        let ghost seen = text@.subrange(0, i as int);
        let ghost now = text@.subrange(0, i + 1);
        proof {
            assert(now.drop_last() == seen);
            assert(now.last() == text@[i as int]);
            if i > 0 {
                assert(now[now.len() - 2] == text@[i - 1]);
            }
        }
        let c: char = text[i];
        if char_is_whitespace(c) {
            if in_word {
                let ghost closed = text_views(found@);
                found.push(word);
                assert(text_views(found@) == closed.push(word@));
                word = Vec::new();
                in_word = false;
            }
        } else {
            let ghost open = word@;
            word.push(c);
            proof {
                if in_word {
                    assert(text_views(found@).push(open).update(
                        text_views(found@).len() as int,
                        open.push(c),
                    ) == text_views(found@).push(word@));
                } else {
                    assert(word@ == seq![c]);
                }
            }
            in_word = true;
        }
        i += 1;
    }
    assert(text@.subrange(0, i as int) == text@);
    if in_word {
        let ghost closed = text_views(found@);
        found.push(word);
        assert(text_views(found@) == closed.push(word@));
    }
    found
}

/// The pieces into which the character `sep` cuts a text.
pub fn split_at(text: &[char], sep: char) -> (found: Vec<Vec<char>>)
    ensures
        text_views(found@) == pieces(text@, sep),
        found@.len() >= 1,
{
    let mut found: Vec<Vec<char>> = Vec::new();
    let mut piece: Vec<char> = Vec::new();
    let mut i: usize = 0;
    assert(text@.subrange(0, 0).len() == 0);
    assert(text_views(found@).push(piece@) == seq![Seq::<char>::empty()]);
    while i < text.len()
        invariant
            i <= text@.len(),
            pieces(text@.subrange(0, i as int), sep) == text_views(found@).push(piece@),
        decreases text@.len() - i,
    {
        let ghost seen = text@.subrange(0, i as int);
        let ghost now = text@.subrange(0, i + 1);
        proof {
            assert(now.drop_last() == seen);
            assert(now.last() == text@[i as int]);
        }
        let c: char = text[i];
        if c == sep {
            let ghost closed = text_views(found@);
            found.push(piece);
            assert(text_views(found@) == closed.push(piece@));
            piece = Vec::new();
        } else {
            let ghost open = piece@;
            piece.push(c);
            assert(text_views(found@).push(open).update(
                text_views(found@).len() as int,
                open.push(c),
            ) == text_views(found@).push(piece@));
        }
        i += 1;
    }
    assert(text@.subrange(0, i as int) == text@);
    let ghost closed = text_views(found@);
    found.push(piece);
    assert(text_views(found@) == closed.push(piece@));
    found
}

/// The time of day of a date without its seconds.
pub fn shorten_time(time: &[char]) -> (short: Vec<char>)
    ensures
        short@ == short_time(time@),
{
    let parts: Vec<Vec<char>> = split_at(time, ':');
    let mut short: Vec<char> = Vec::new();
    if parts.len() >= 2 {
        assert(text_views(parts@)[0] == parts@[0]@ && text_views(parts@)[1] == parts@[1]@);
        push_chars(&mut short, parts[0].as_slice());
        short.push(':');
        push_chars(&mut short, parts[1].as_slice());
        assert(short@ == parts@[0]@ + seq![':'] + parts@[1]@);
    } else {
        push_chars(&mut short, time);
        assert(short@ == time@);
    }
    short
}

/// The short form of a date, if the text is a date and has one.
pub fn shorten_date(text: &[char]) -> (short: Option<Vec<char>>)
    ensures
        match short {
            Some(date) => short_date(text@) == Some(date@),
            None => short_date(text@) is None,
        },
{
    if !(contains_gmt(text) || count_spaces(text) >= 4) {
        return None;
    }
    let parts: Vec<Vec<char>> = split_words(text);
    if parts.len() < 5 {
        return None;
    }
    assert(text_views(parts@)[1] == parts@[1]@ && text_views(parts@)[2] == parts@[2]@
        && text_views(parts@)[4] == parts@[4]@);
    let month: Vec<char> = to_uppercase(parts[1].as_slice());
    let time: Vec<char> = shorten_time(parts[4].as_slice());
    let mut date: Vec<char> = Vec::new();
    push_chars(&mut date, month.as_slice());
    date.push(' ');
    push_chars(&mut date, parts[2].as_slice());
    date.push(' ');
    push_chars(&mut date, time.as_slice());
    assert(date@ == month@ + seq![' '] + parts@[2]@ + seq![' '] + time@);
    Some(date)
}

} // verus!
