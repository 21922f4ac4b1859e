//! Where an entry stands in a manifest: a byte span in a file, the line it
//! starts on and the text it covers.

use crate::text::{decimal_digits, push_decimal};
use vstd::prelude::*;
use vstd::string::*;
use vstd::utf8::{decode_utf8, encode_utf8, is_char_boundary};

verus! {

/// A range of byte offsets in a manifest's text, from `start` up to `end`.
#[derive(Clone, Copy, Debug, PartialEq, Eq)]
pub struct Span {
    pub start: usize,
    pub end: usize,
}

/// A span in the manifest that was read from `file`.
#[derive(Debug, PartialEq, Eq)]
pub struct Location {
    pub file: String,
    pub span: Span,
}

/// What a [`Location`] stands for: a path and two offsets.
pub struct LocationView {
    pub file: Seq<char>,
    pub start: nat,
    pub end: nat,
}

impl DeepView for Location {
    type V = LocationView;

    open spec fn deep_view(&self) -> LocationView {
        LocationView { file: self.file@, start: self.span.start as nat, end: self.span.end as nat }
    }
}

impl Clone for Location {
    fn clone(&self) -> (r: Self)
        ensures
            r == *self,
    {
        Location { file: self.file.clone(), span: self.span }
    }
}

/// Whether the bytes from `start` up to `end` can be cut out of `text`: the
/// offsets are in order, inside the text, and neither splits a character.
pub open spec fn span_fits(text: Seq<char>, start: int, end: int) -> bool {
    &&& 0 <= start <= end <= encode_utf8(text).len()
    &&& is_char_boundary(encode_utf8(text), start)
    &&& is_char_boundary(encode_utf8(text), end)
}

/// The text that the bytes from `start` up to `end` of `text` spell.
pub open spec fn snippet(text: Seq<char>, start: int, end: int) -> Seq<char> {
    decode_utf8(encode_utf8(text).subrange(start, end))
}

/// The offset of the first line feed of `text` at or after `from`; the
/// length of `text` where none follows.
pub open spec fn line_break(text: Seq<u8>, from: int) -> int
    decreases text.len() - from,
{
    if from < 0 || from >= text.len() {
        text.len() as int
    } else if text[from] == 0x0a {
        from
    } else {
        line_break(text, from + 1)
    }
}

/// What the line that starts at `from` and breaks at `end` adds to the
/// running count: its bytes and one for the line feed, less the carriage
/// return of a `\r\n` ending.
pub open spec fn line_weight(text: Seq<u8>, from: int, end: int) -> int {
    if from < end < text.len() && text[end - 1] == 0x0d {
        end - from
    } else {
        end - from + 1
    }
}

/// The number of the first line, from the one that starts at `from` and has
/// number `index + 1`, at which the running count `acc` exceeds `target`;
/// 0 where the text ends first.
pub open spec fn line_search(text: Seq<u8>, from: int, acc: int, index: nat, target: int) -> nat
    decreases text.len() - from,
    via line_search_ends
{
    if from < 0 || from >= text.len() {
        0
    } else {
        let end = line_break(text, from);
        let sum = acc + line_weight(text, from, end);
        if sum > target {
            index + 1
        } else if end >= text.len() {
            0
        } else {
            line_search(text, end + 1, sum, index + 1, target)
        }
    }
}

#[via_fn]
proof fn line_search_ends(text: Seq<u8>, from: int, acc: int, index: nat, target: int) {
    if 0 <= from < text.len() {
        lemma_line_break(text, from);
    }
}

/// The 1-based number of the line of `text` on which byte offset `target`
/// lies, found by adding up line lengths until they exceed `target`; 0 where
/// they never do.
pub open spec fn line_number(text: Seq<u8>, target: int) -> nat {
    line_search(text, 0, 0, 0, target)
}

/// A line break lies at or after the offset it is looked for from, and no
/// line feed stands between the two.
pub proof fn lemma_line_break(text: Seq<u8>, from: int)
    requires
        0 <= from <= text.len(),
    ensures
        from <= line_break(text, from) <= text.len(),
        line_break(text, from) < text.len() ==> text[line_break(text, from)] == 0x0a,
        forall|j: int| from <= j < line_break(text, from) ==> text[j] != 0x0a,
    decreases text.len() - from,
{
    if from < text.len() && text[from] != 0x0a {
        lemma_line_break(text, from + 1);
    }
}

/// How many line feeds stand before offset `upto` of `text`.
pub open spec fn line_feeds_before(text: Seq<u8>, upto: int) -> nat
    decreases upto,
{
    if upto <= 0 {
        0
    } else if upto <= text.len() && text[upto - 1] == 0x0a {
        line_feeds_before(text, upto - 1) + 1
    } else {
        line_feeds_before(text, upto - 1)
    }
}

proof fn lemma_no_line_feeds(text: Seq<u8>, from: int, to: int)
    requires
        0 <= from <= to <= text.len(),
        forall|j: int| from <= j < to ==> text[j] != 0x0a,
    ensures
        line_feeds_before(text, to) == line_feeds_before(text, from),
    decreases to - from,
{
    if from < to {
        lemma_no_line_feeds(text, from, to - 1);
    }
}

proof fn lemma_line_search_plain(text: Seq<u8>, from: int, target: int)
    requires
        0 <= from <= target < text.len(),
        forall|j: int| 0 <= j < text.len() ==> text[j] != 0x0d,
        from == 0 || text[from - 1] == 0x0a,
    ensures
        line_search(text, from, from, line_feeds_before(text, from), target) == line_feeds_before(
            text,
            target,
        ) + 1,
    decreases text.len() - from,
{
    lemma_line_break(text, from);
    let end = line_break(text, from);
    if target <= end {
        lemma_no_line_feeds(text, from, target);
    } else {
        lemma_no_line_feeds(text, from, end);
        lemma_line_search_plain(text, end + 1, target);
    }
}

/// In a text without carriage returns, the line of an offset inside the
/// text is one more than the number of line feeds before the offset.
pub proof fn lemma_line_number_counts_line_feeds(text: Seq<u8>, target: int)
    requires
        0 <= target < text.len(),
        forall|j: int| 0 <= j < text.len() ==> text[j] != 0x0d,
    ensures
        line_number(text, target) == line_feeds_before(text, target) + 1,
{
    lemma_line_search_plain(text, 0, target);
}

fn find_line_break(bytes: &[u8], from: usize) -> (end: usize)
    requires
        from <= bytes@.len(),
    ensures
        end == line_break(bytes@, from as int),
        from <= end <= bytes@.len(),
{
    let mut end: usize = from;
    while end < bytes.len() && bytes[end] != 0x0a
        invariant
            from <= end <= bytes@.len(),
            line_break(bytes@, from as int) == line_break(bytes@, end as int),
        decreases bytes@.len() - end,
    {
        end += 1;
    }
    end
}

/// The line of `content` on which byte offset `target` lies.
pub fn line_of(content: &str, target: usize) -> (line: usize)
    ensures
        line == line_number(content.spec_bytes(), target as int),
{
    let bytes = content.as_bytes();
    let mut from: usize = 0;
    let mut acc: usize = 0;
    let mut index: usize = 0;
    while from < bytes.len()
        invariant
            bytes@ == content.spec_bytes(),
            index <= from <= bytes@.len(),
            acc <= target,
            line_number(bytes@, target as int) == line_search(
                bytes@,
                from as int,
                acc as int,
                index as nat,
                target as int,
            ),
        decreases bytes@.len() - from,
    {
        let end = find_line_break(bytes, from);
        let reach: usize = if from < end && end < bytes.len() && bytes[end - 1] == 0x0d {
            end - from - 1
        } else {
            end - from
        };
        if reach >= target - acc {
            return index + 1;
        }
        if end == bytes.len() {
            return 0;
        }
        acc = acc + reach + 1;
        index = index + 1;
        from = end + 1;
    }
    0
}

/// Whether `span` can be cut out of `content`.
pub fn span_fits_in(content: &str, span: Span) -> (r: bool)
    ensures
        r == span_fits(content@, span.start as int, span.end as int),
{
    let ok = span.start <= span.end && content.is_char_boundary(span.start)
        && content.is_char_boundary(span.end);
    proof {
        let bytes = content.spec_bytes();
        vstd::utf8::encode_utf8_valid_utf8(content@);
        if span.end > bytes.len() {
            reveal_with_fuel(vstd::utf8::is_char_boundary, 1);
        }
    }
    ok
}

/// The part of `content` that the bytes from `start` up to `end` spell.
pub fn cut<'a>(content: &'a str, start: usize, end: usize) -> (r: &'a str)
    requires
        span_fits(content@, start as int, end as int),
    ensures
        r@ == snippet(content@, start as int, end as int),
{
    let (head, _) = content.split_at(end);
    proof {
        let all = content.spec_bytes();
        let front = head.spec_bytes();
        vstd::utf8::encode_utf8_valid_utf8(head@);
        vstd::utf8::encode_utf8_valid_utf8(content@);
        if start == end {
            vstd::utf8::is_char_boundary_start_end_of_seq(front);
        } else {
            vstd::utf8::is_char_boundary_iff_not_is_continuation_byte(all, start as int);
            vstd::utf8::is_char_boundary_iff_not_is_continuation_byte(front, start as int);
        }
    }
    let (_, r) = head.split_at(start);
    proof {
        assert(r.spec_bytes() =~= content.spec_bytes().subrange(start as int, end as int));
        vstd::utf8::encode_utf8_decode_utf8(r@);
    }
    r
}

/// The line on which `location` starts in `content`, and the text it covers.
pub fn span_info<'a>(content: &'a str, location: &Location) -> (r: (usize, &'a str))
    requires
        span_fits(content@, location.span.start as int, location.span.end as int),
    ensures
        r.0 == line_number(content.spec_bytes(), location.span.start as int),
        r.1@ == snippet(content@, location.span.start as int, location.span.end as int),
{
    let src_line = line_of(content, location.span.start);
    let text = cut(content, location.span.start, location.span.end);
    (src_line, text)
}

/// How a message shows one place in a manifest: the file and the line in a
/// heading, the text of the entry below it.
pub open spec fn site_block(file: Seq<char>, line: nat, text: Seq<char>) -> Seq<char> {
    "# "@ + file + " (line "@ + decimal_digits(line) + ")\n"@ + text + "\n"@
}

/// The block that shows `location`, which lies in `content`.
pub open spec fn site_block_of(content: Seq<char>, location: LocationView) -> Seq<char> {
    site_block(
        location.file,
        line_number(encode_utf8(content), location.start as int),
        snippet(content, location.start as int, location.end as int),
    )
}

/// Appends to `out` the block that shows `location`, which lies in `content`.
pub fn push_site_block(out: &mut String, content: &str, location: &Location)
    requires
        span_fits(content@, location.span.start as int, location.span.end as int),
    ensures
        final(out)@ == old(out)@ + site_block_of(content@, location.deep_view()),
{
    let (src_line, text) = span_info(content, location);
    out.append("# ");
    out.append(location.file.as_str());
    out.append(" (line ");
    push_decimal(out, src_line);
    out.append(")\n");
    out.append(text);
    out.append("\n");
}

} // verus!
