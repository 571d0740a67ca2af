//! A syntax error of the configuration document, put in words with the line
//! it is on and a mark under the place.
use vstd::prelude::*;
use vstd::string::StringSliceAdditionalSpecFns;
use vstd::utf8::{
    decode_utf8, encode_utf8, encode_utf8_decode_utf8, encode_utf8_valid_utf8, is_char_boundary,
    is_char_boundary_iff_not_is_continuation_byte, is_char_boundary_start_end_of_seq, valid_utf8,
};

verus! {

pub const LINE_FEED: u8 = 10;

pub const CARRIAGE_RETURN: u8 = 13;

/// The character of one decimal digit.
pub open spec fn digit(value: nat) -> char {
    if value == 0 {
        '0'
    } else if value == 1 {
        '1'
    } else if value == 2 {
        '2'
    } else if value == 3 {
        '3'
    } else if value == 4 {
        '4'
    } else if value == 5 {
        '5'
    } else if value == 6 {
        '6'
    } else if value == 7 {
        '7'
    } else if value == 8 {
        '8'
    } else {
        '9'
    }
}

/// A number in decimal notation.
pub open spec fn decimal(number: nat) -> Seq<char>
    decreases number,
{
    if number < 10 {
        seq![digit(number)]
    } else {
        decimal(number / 10).push(digit(number % 10))
    }
}

/// The same character so many times.
pub open spec fn repeated(piece: char, times: nat) -> Seq<char> {
    Seq::new(times, |k: int| piece)
}

/// How far `to` lies beyond `from`; nothing where it does not.
pub open spec fn gap(to: int, from: int) -> nat {
    if to >= from {
        (to - from) as nat
    } else {
        0
    }
}

/// Where the first line of the bytes ends: at the first line feed, or at
/// the end where there is none.
pub open spec fn line_end(bytes: Seq<u8>) -> int
    decreases bytes.len(),
{
    if bytes.len() == 0 || bytes[0] == LINE_FEED {
        0
    } else {
        1 + line_end(bytes.skip(1))
    }
}

/// The first line of the bytes, without the line feed that ends it and
/// without a carriage return before that line feed.
pub open spec fn line_content(bytes: Seq<u8>) -> Seq<u8> {
    let stop = line_end(bytes);
    if 0 < stop < bytes.len() && bytes[stop - 1] == CARRIAGE_RETURN {
        bytes.subrange(0, stop - 1)
    } else {
        bytes.subrange(0, stop)
    }
}

/// What follows the first line and its line feed.
pub open spec fn after_line(bytes: Seq<u8>) -> Seq<u8> {
    let stop = line_end(bytes);
    if stop < bytes.len() {
        bytes.skip(stop + 1)
    } else {
        Seq::empty()
    }
}

/// A line of the document: its number from one, its content, and the byte
/// offset at which it starts.
pub struct LinePlace {
    pub number: int,
    pub content: Seq<u8>,
    pub offset: int,
}

/// The first line that ends at or after `end`, looking from the line that
/// starts `rest` at byte `offset` of the document. A line ends behind its
/// line feed; a last line without one is taken as if it had one.
pub open spec fn find_line(rest: Seq<u8>, offset: int, number: int, end: int) -> Option<LinePlace>
    decreases rest.len(),
{
    if rest.len() == 0 {
        None
    } else {
        let content = line_content(rest);
        let next = after_line(rest);
        let behind = offset + line_end(rest) + 1;
        if behind < end && next.len() < rest.len() {
            find_line(next, behind, number + 1, end)
        } else {
            Some(LinePlace { number, content, offset })
        }
    }
}

/// The report of a syntax error: the message; then, where the place is
/// known, an empty line, the number and the text of the line on which the
/// place ends, and under it a caret for each byte of the place, moved right
/// by the bytes between the line's start and the place's start, so that the
/// carets stand under the place.
pub open spec fn syntax_report(doc: Seq<char>, message: Seq<char>, span: Option<(usize, usize)>) -> Seq<
    char,
> {
    match span {
        None => message,
        Some(range) => {
            let opening = message + seq!['\n'];
            match find_line(encode_utf8(doc), 0, 1, range.1 as int) {
                None => opening,
                Some(place) => opening + seq!['\n'] + decimal(place.number as nat) + seq![':', '\t']
                    + decode_utf8(place.content) + seq!['\n', '\t'] + repeated(
                    ' ',
                    gap(range.0 as int, place.offset),
                ) + repeated('^', gap(range.1 as int, range.0 as int)),
            }
        },
    }
}

/// `line_end` is the first index that holds a line feed, or the length.
proof fn lemma_line_end(bytes: Seq<u8>, stop: int)
    requires
        0 <= stop <= bytes.len(),
        forall|j: int| 0 <= j < stop ==> bytes[j] != LINE_FEED,
        stop < bytes.len() ==> bytes[stop] == LINE_FEED,
    ensures
        line_end(bytes) == stop,
    decreases stop,
{
    if stop > 0 {
        let rest = bytes.skip(1);
        assert forall|j: int| 0 <= j < stop - 1 implies rest[j] != LINE_FEED by {
            assert(rest[j] == bytes[j + 1]);
        }
        lemma_line_end(rest, stop - 1);
    }
}

/// Before the end of the first line there is no line feed, and where the
/// line ends before the end of the bytes, a line feed stands there.
pub proof fn lemma_line_end_first(bytes: Seq<u8>)
    ensures
        0 <= line_end(bytes) <= bytes.len(),
        forall|j: int| 0 <= j < line_end(bytes) ==> bytes[j] != LINE_FEED,
        line_end(bytes) < bytes.len() ==> bytes[line_end(bytes)] == LINE_FEED,
    decreases bytes.len(),
{
    if bytes.len() != 0 && bytes[0] != LINE_FEED {
        let rest = bytes.skip(1);
        lemma_line_end_first(rest);
        assert forall|j: int| 0 <= j < line_end(bytes) implies bytes[j] != LINE_FEED by {
            if j > 0 {
                assert(bytes[j] == rest[j - 1]);
            }
        }
        if line_end(bytes) < bytes.len() {
            assert(bytes[line_end(bytes)] == rest[line_end(rest)]);
        }
    }
}

/// The line that the report shows is a line of the document: looking from
/// the start of a line, the offset found is where the shown line starts,
/// its content stands there, and a line feed stands before it unless it is
/// the first line.
pub proof fn lemma_line_stands_at_offset(doc: Seq<u8>, at: int, number: int, end: int)
    requires
        0 <= at <= doc.len(),
        at == 0 || doc[at - 1] == LINE_FEED,
    ensures
        find_line(doc.skip(at), at, number, end) matches Some(place) ==> at <= place.offset
            && place.offset + place.content.len() <= doc.len() && doc.subrange(
            place.offset,
            place.offset + place.content.len(),
        ) == place.content && (place.offset == 0 || doc[place.offset - 1] == LINE_FEED),
    decreases doc.len() - at,
{
    let rest = doc.skip(at);
    if rest.len() != 0 {
        lemma_line_end_first(rest);
        let stop = line_end(rest);
        let content = line_content(rest);
        let next = after_line(rest);
        let behind = at + stop + 1;
        if behind < end && next.len() < rest.len() {
            if stop < rest.len() {
                assert(next =~= doc.skip(behind));
                assert(doc[behind - 1] == rest[stop]);
                lemma_line_stands_at_offset(doc, behind, number + 1, end);
            } else {
                assert(next.len() == 0);
            }
        } else {
            assert(doc.subrange(at, at + content.len()) =~= content);
        }
    }
}

fn digit_text(value: u128) -> (text: &'static str)
    requires
        value < 10,
    ensures
        text@ == seq![digit(value as nat)],
{
    proof {
        reveal_strlit("0");
        reveal_strlit("1");
        reveal_strlit("2");
        reveal_strlit("3");
        reveal_strlit("4");
        reveal_strlit("5");
        reveal_strlit("6");
        reveal_strlit("7");
        reveal_strlit("8");
        reveal_strlit("9");
    }
    let text = if value == 0 {
        "0"
    } else if value == 1 {
        "1"
    } else if value == 2 {
        "2"
    } else if value == 3 {
        "3"
    } else if value == 4 {
        "4"
    } else if value == 5 {
        "5"
    } else if value == 6 {
        "6"
    } else if value == 7 {
        "7"
    } else if value == 8 {
        "8"
    } else {
        "9"
    };
    assert(text@ =~= seq![digit(value as nat)]);
    text
}

/// Writes a number in decimal notation.
pub fn decimal_text(number: u128) -> (text: String)
    ensures
        text@ == decimal(number as nat),
    decreases number,
{
    if number < 10 {
        digit_text(number).to_owned()
    } else {
        let mut text = decimal_text(number / 10);
        text.append(digit_text(number % 10));
        assert(text@ =~= decimal(number as nat));
        text
    }
}

/// Appends the same one-character piece so many times.
fn append_repeated(text: &mut String, piece: &str, times: usize)
    requires
        piece@.len() == 1,
    ensures
        final(text)@ == old(text)@ + repeated(piece@[0], times as nat),
{
    let ghost before = text@;
    let mut done: usize = 0;
    assert(text@ =~= before + repeated(piece@[0], 0));
    while done < times
        invariant
            done <= times,
            piece@.len() == 1,
            text@ == before + repeated(piece@[0], done as nat),
        decreases times - done,
    {
        text.append(piece);
        done += 1;
        assert(text@ =~= before + repeated(piece@[0], done as nat));
    }
}

/// Cuts the first line off a text that is not empty: the line without its
/// end, what follows the line feed, and the bytes before the line feed.
fn split_line<'a>(rest: &'a str) -> (parts: (&'a str, &'a str, usize))
    requires
        rest.spec_bytes().len() > 0,
    ensures
        parts.0.spec_bytes() == line_content(rest.spec_bytes()),
        parts.1.spec_bytes() == after_line(rest.spec_bytes()),
        parts.2 == line_end(rest.spec_bytes()),
        parts.2 <= rest.spec_bytes().len(),
        parts.1.spec_bytes().len() < rest.spec_bytes().len(),
        parts.1.spec_bytes().len() > 0 ==> parts.2 + 1 + parts.1.spec_bytes().len()
            == rest.spec_bytes().len(),
{
    let bytes = rest.as_bytes();
    let ghost all = rest.spec_bytes();
    proof {
        encode_utf8_valid_utf8(rest@);
    }
    let mut stop: usize = 0;
    while stop < bytes.len() && bytes[stop] != LINE_FEED
        invariant
            stop <= bytes.len(),
            bytes@ == all,
            forall|j: int| 0 <= j < stop ==> all[j] != LINE_FEED,
        decreases bytes.len() - stop,
    {
        stop += 1;
    }
    proof {
        lemma_line_end(all, stop as int);
        is_char_boundary_start_end_of_seq(all);
        if stop < all.len() {
            is_char_boundary_iff_not_is_continuation_byte(all, stop as int);
        }
    }
    let terminated = stop < bytes.len();
    let parts = rest.split_at(stop);
    let head = parts.0;
    let tail = parts.1;
    let line: &str = if terminated && stop > 0 && bytes[stop - 1] == CARRIAGE_RETURN {
        proof {
            let front = head.spec_bytes();
            encode_utf8_valid_utf8(head@);
            assert(front[stop - 1] == all[stop - 1]);
            is_char_boundary_iff_not_is_continuation_byte(front, stop - 1);
        }
        let pieces = head.split_at(stop - 1);
        assert(pieces.0.spec_bytes() =~= all.subrange(0, stop - 1));
        pieces.0
    } else {
        head
    };
    let next: &str = if terminated {
        proof {
            let back = tail.spec_bytes();
            encode_utf8_valid_utf8(tail@);
            assert(back[0] == all[stop as int]);
            reveal_with_fuel(is_char_boundary, 2);
            assert(is_char_boundary(back, 1));
        }
        let pieces = tail.split_at(1);
        assert(pieces.1.spec_bytes() =~= all.skip(stop + 1));
        pieces.1
    } else {
        assert(tail.spec_bytes() =~= Seq::<u8>::empty());
        tail
    };
    (line, next, stop)
}

/// Appends the marked line: an empty line, the line's number and text, and
/// under it the carets, moved right by `pad`.
fn append_marked_line(report: &mut String, number: u128, line: &str, pad: usize, width: usize)
    ensures
        final(report)@ == old(report)@ + seq!['\n'] + decimal(number as nat) + seq![':', '\t']
            + line@ + seq!['\n', '\t'] + repeated(' ', pad as nat) + repeated('^', width as nat),
{
    proof {
        reveal_strlit("\n");
        reveal_strlit(":\t");
        reveal_strlit("\n\t");
        reveal_strlit(" ");
        reveal_strlit("^");
    }
    let ghost before = report@;
    report.append("\n");
    let digits = decimal_text(number);
    report.append(digits.as_str());
    report.append(":\t");
    report.append(line);
    report.append("\n\t");
    assert(report@ =~= before + seq!['\n'] + decimal(number as nat) + seq![':', '\t'] + line@
        + seq!['\n', '\t']);
    append_repeated(report, " ", pad);
    append_repeated(report, "^", width);
}

/// Puts a syntax error in words for a reader: the message, and the line of
/// the document on which the place ends, with carets under the place. A
/// place that starts before the line it ends on is marked from the start of
/// that line.
pub fn map_to_readable_syntax_err(doc: &str, message: &str, span: Option<(usize, usize)>) -> (report:
    String)
    ensures
        report@ == syntax_report(doc@, message@, span),
{
    let mut report = message.to_owned();
    let range = match span {
        None => {
            return report;
        },
        Some(range) => range,
    };
    let start = range.0;
    let end = range.1;
    proof {
        reveal_strlit("\n");
    }
    report.append("\n");
    assert(report@ =~= message@ + seq!['\n']);
    let mut rest: &str = doc;
    let mut remaining: usize = doc.as_bytes().len();
    let mut offset: usize = 0;
    let mut index: usize = 0;
    while remaining > 0
        invariant
            span == Some((start, end)),
            report@ == message@ + seq!['\n'],
            remaining == rest.spec_bytes().len(),
            doc.spec_bytes().len() <= usize::MAX,
            remaining > 0 ==> offset + remaining == doc.spec_bytes().len(),
            remaining > 0 ==> index + remaining <= doc.spec_bytes().len(),
            find_line(encode_utf8(doc@), 0, 1, end as int) == find_line(
                rest.spec_bytes(),
                offset as int,
                index + 1,
                end as int,
            ),
        decreases remaining,
    {
        let ghost all = rest.spec_bytes();
        let parts = split_line(rest);
        let line = parts.0;
        let next = parts.1;
        let before_feed = offset + parts.2;
        if end > 0 && before_feed < end - 1 {
            rest = next;
            remaining = next.as_bytes().len();
            offset = before_feed + 1;
            index = index + 1;
        } else {
            let pad = if start >= offset {
                start - offset
            } else {
                0
            };
            let width = if end >= start {
                end - start
            } else {
                0
            };
            append_marked_line(&mut report, index as u128 + 1, line, pad, width);
            proof {
                encode_utf8_decode_utf8(line@);
                let place = LinePlace {
                    number: index + 1,
                    content: line_content(all),
                    offset: offset as int,
                };
                assert(find_line(all, offset as int, index + 1, end as int) == Some(place));
                assert(decode_utf8(place.content) == line@);
            }
            return report;
        }
    }
    report
}

} // verus!
