//! Text as sequences of characters: searching, splitting and comparing.

use vstd::prelude::*;
use vstd::utf8::*;

verus! {

/// The first index at or after `i` at which `s` holds `c`.
pub open spec fn find(s: Seq<char>, c: char, i: int) -> Option<int>
    decreases s.len() - i,
{
    if i >= s.len() {
        None
    } else if s[i] == c {
        Some(i)
    } else {
        find(s, c, i + 1)
    }
}

/// The parts of `s` before and after the first `c`.
pub open spec fn split_at_char(s: Seq<char>, c: char) -> Option<(Seq<char>, Seq<char>)> {
    match find(s, c, 0) {
        Some(i) => Some((s.take(i), s.skip(i + 1))),
        None => None,
    }
}

/// What follows `prefix` at the start of `s`.
pub open spec fn without_prefix(s: Seq<char>, prefix: Seq<char>) -> Option<Seq<char>> {
    if prefix.len() <= s.len() && s.take(prefix.len() as int) == prefix {
        Some(s.skip(prefix.len() as int))
    } else {
        None
    }
}

/// Whether a character has the Unicode property `White_Space`.
pub open spec fn white(c: char) -> bool {
    ||| '\u{9}' <= c <= '\u{d}'
    ||| c == '\u{20}'
    ||| c == '\u{85}'
    ||| c == '\u{a0}'
    ||| c == '\u{1680}'
    ||| '\u{2000}' <= c <= '\u{200a}'
    ||| c == '\u{2028}'
    ||| c == '\u{2029}'
    ||| c == '\u{202f}'
    ||| c == '\u{205f}'
    ||| c == '\u{3000}'
}

/// Whether a character is in the Unicode general category `Cc`.
pub open spec fn control(c: char) -> bool {
    c <= '\u{1f}' || '\u{7f}' <= c <= '\u{9f}'
}

/// The first index at or after `i` at which `s` holds no white space, or its length.
pub open spec fn skip_white(s: Seq<char>, i: int) -> int
    decreases s.len() - i,
{
    if i >= s.len() || !white(s[i]) {
        i
    } else {
        skip_white(s, i + 1)
    }
}

/// The first index at or after `i` at which `s` holds white space, or its length.
pub open spec fn skip_word(s: Seq<char>, i: int) -> int
    decreases s.len() - i,
{
    if i >= s.len() || white(s[i]) {
        i
    } else {
        skip_word(s, i + 1)
    }
}

/// The first word of `s` and what follows it.
pub open spec fn first_word(s: Seq<char>) -> Option<(Seq<char>, Seq<char>)> {
    let start = skip_white(s, 0);
    let end = skip_word(s, start);
    if start >= s.len() {
        None
    } else {
        Some((s.subrange(start, end), s.skip(end)))
    }
}

/// `s` without the white space at its end.
pub open spec fn trimmed_end(s: Seq<char>) -> Seq<char>
    decreases s.len(),
{
    if s.len() == 0 || !white(s.last()) {
        s
    } else {
        trimmed_end(s.drop_last())
    }
}

/// `s` without the white space at its start and end.
pub open spec fn trimmed(s: Seq<char>) -> Seq<char> {
    trimmed_end(s.skip(skip_white(s, 0)))
}

/// The parts of `s` between occurrences of `c`, where the part that starts at `start` holds none
/// before `i`.
pub open spec fn split_all(s: Seq<char>, c: char, start: int, i: int) -> Seq<Seq<char>>
    decreases s.len() - i,
{
    if i >= s.len() {
        seq![s.skip(start)]
    } else if s[i] == c {
        seq![s.subrange(start, i)] + split_all(s, c, i + 1, i + 1)
    } else {
        split_all(s, c, start, i + 1)
    }
}

/// A line without a carriage return at its end.
pub open spec fn without_return(line: Seq<char>) -> Seq<char> {
    if line.len() > 0 && line.last() == '\r' {
        line.drop_last()
    } else {
        line
    }
}

/// The lines of `s`, where the line that starts at `start` does not end before `i`. Lines end
/// with a line feed, with or without a carriage return before it; the last may not end.
pub open spec fn lines_of(s: Seq<char>, start: int, i: int) -> Seq<Seq<char>>
    decreases s.len() - i,
{
    if i >= s.len() {
        if start >= s.len() {
            Seq::empty()
        } else {
            seq![s.skip(start)]
        }
    } else if s[i] == '\n' {
        seq![without_return(s.subrange(start, i))] + lines_of(s, i + 1, i + 1)
    } else {
        lines_of(s, start, i + 1)
    }
}

/// Whether a character is an ASCII digit.
pub open spec fn digit(c: char) -> bool {
    '0' <= c <= '9'
}

/// The number of ASCII digits in a row from index `i` on.
pub open spec fn skip_digits(s: Seq<char>, i: int) -> int
    decreases s.len() - i,
{
    if i >= s.len() || !digit(s[i]) {
        i
    } else {
        skip_digits(s, i + 1)
    }
}

/// The value of a sequence of decimal digits.
pub open spec fn decimal(s: Seq<char>) -> int
    decreases s.len(),
{
    if s.len() == 0 {
        0
    } else {
        10 * decimal(s.drop_last()) + (s.last() as int - '0' as int)
    }
}

/// The digits of a number that may have a plus sign.
pub open spec fn unsigned_digits(s: Seq<char>) -> Seq<char> {
    if s.len() > 0 && s[0] == '+' {
        s.skip(1)
    } else {
        s
    }
}

/// The number of eight bits that a text holds in decimal.
pub open spec fn u8_in(s: Seq<char>) -> Option<u8> {
    let digits = unsigned_digits(s);
    if digits.len() > 0 && (forall|i: int| 0 <= i < digits.len() ==> digit(#[trigger] digits[i]))
        && decimal(digits) <= 255 {
        Some(decimal(digits) as u8)
    } else {
        None
    }
}

/// `std::str::from_utf8`: the text that the bytes encode, or an error, here `None`, where they
/// are not well-formed UTF-8.
#[verifier::external_body]
pub(crate) fn from_utf8(bytes: &[u8]) -> (r: Option<&str>)
    ensures
        match r {
            Some(text) => valid_utf8(bytes@) && text@ == decode_utf8(bytes@),
            None => !valid_utf8(bytes@),
        },
{
    std::str::from_utf8(bytes).ok()
}

/// Whether the bytes are the start of a text, which some continuation makes well-formed UTF-8.
pub open spec fn starts_text(bytes: Seq<u8>) -> bool {
    exists|more: Seq<u8>| valid_utf8(#[trigger] (bytes + more))
}

/// Whether the byte can be the second one of a sequence of three or four bytes that starts with
/// `first`: others give values that have shorter sequences, surrogates, or no characters.
pub open spec fn second_byte(first: u8, second: u8) -> bool {
    &&& is_continuation_byte(second)
    &&& first == 0xe0 ==> 0xa0 <= second
    &&& first == 0xed ==> second <= 0x9f
    &&& first == 0xf0 ==> 0x90 <= second
    &&& first == 0xf4 ==> second <= 0x8f
}

/// Whether the bytes are the start of a sequence that stands for one character, with at least one
/// byte missing (Unicode Standard, table 3-7).
pub open spec fn unfinished(bytes: Seq<u8>) -> bool {
    ||| bytes.len() == 1 && 0xc2 <= bytes[0] <= 0xf4
    ||| bytes.len() == 2 && 0xe0 <= bytes[0] <= 0xf4 && second_byte(bytes[0], bytes[1])
    ||| bytes.len() == 3 && 0xf0 <= bytes[0] <= 0xf4 && second_byte(bytes[0], bytes[1])
        && is_continuation_byte(bytes[2])
}

/// Which sequences of bytes stand for one character.
proof fn lemma_first_scalar(bytes: Seq<u8>)
    requires
        valid_leading_and_continuation_bytes_first_codepoint(bytes),
    ensures
        valid_first_scalar(bytes) <==> {
            &&& is_leading_byte_width_2(bytes[0]) ==> 0xc2 <= bytes[0]
            &&& 0xe0 <= bytes[0] ==> bytes[0] <= 0xf4 && second_byte(bytes[0], bytes[1])
        },
{
    let a = bytes[0];
    if is_leading_byte_width_1(a) {
        assert(((a & 0x7f) as u32) < 0xd800) by (bit_vector);
    } else if is_leading_byte_width_2(a) {
        let b = bytes[1];
        assert(((((a & 0x1f) as u32) << 6) | ((b & 0x3f) as u32)) < 0x800 && (0x80 <= ((((a & 0x1f)
            as u32) << 6) | ((b & 0x3f) as u32)) <==> 0xc2 <= a)) by (bit_vector)
            requires
                0xc0 <= a <= 0xdf,
                0x80 <= b <= 0xbf,
        ;
    } else if is_leading_byte_width_3(a) {
        let (b, c) = (bytes[1], bytes[2]);
        let code = codepoint_width_3(a, b, c);
        assert((0x800 <= code && !(0xd800 <= code <= 0xdfff)) <==> (!(a == 0xe0 && b < 0xa0) && !(a
            == 0xed && 0x9f < b))) by (bit_vector)
            requires
                code == ((((a & 0x0f) as u32) << 12) | (((b & 0x3f) as u32) << 6) | ((c & 0x3f)
                    as u32)),
                0xe0 <= a <= 0xef,
                0x80 <= b <= 0xbf,
                0x80 <= c <= 0xbf,
        ;
    } else {
        let (b, c, d) = (bytes[1], bytes[2], bytes[3]);
        let code = codepoint_width_4(a, b, c, d);
        assert((0x10000 <= code <= 0x10ffff) <==> (a <= 0xf4 && !(a == 0xf0 && b < 0x90) && !(a
            == 0xf4 && 0x8f < b))) by (bit_vector)
            requires
                code == ((((a & 0x07) as u32) << 18) | (((b & 0x3f) as u32) << 12) | (((c & 0x3f)
                    as u32) << 6) | ((d & 0x3f) as u32)),
                0xf0 <= a <= 0xf7,
                0x80 <= b <= 0xbf,
                0x80 <= c <= 0xbf,
                0x80 <= d <= 0xbf,
        ;
    }
}

/// A text behind which the start of a sequence stands is the start of a text.
proof fn lemma_unfinished_starts(bytes: Seq<u8>, i: int)
    requires
        0 <= i <= bytes.len(),
        valid_utf8(bytes.take(i)),
        i == bytes.len() || unfinished(bytes.skip(i)),
    ensures
        starts_text(bytes),
{
    if i == bytes.len() {
        assert(bytes.take(i) =~= bytes + Seq::<u8>::empty());
    } else {
        let tail = bytes.skip(i);
        let first = tail[0];
        let second = if first == 0xe0 {
            0xa0u8
        } else if first == 0xf0 {
            0x90u8
        } else {
            0x80u8
        };
        let rest: Seq<u8> = if first < 0xe0 {
            seq![second]
        } else if first < 0xf0 {
            seq![second, 0x80u8]
        } else {
            seq![second, 0x80u8, 0x80u8]
        };
        let more = rest.skip(tail.len() - 1);
        let whole = tail + more;
        assert(valid_leading_and_continuation_bytes_first_codepoint(whole));
        lemma_first_scalar(whole);
        assert(pop_first_scalar(whole).len() == 0);
        assert(valid_utf8(pop_first_scalar(whole)));
        assert(valid_utf8(whole));
        valid_utf8_concat(bytes.take(i), whole);
        assert(bytes + more =~= bytes.take(i) + whole);
    }
}

/// The start of a text is a text, or one behind which the start of a sequence stands.
proof fn lemma_starts_unfinished(bytes: Seq<u8>, more: Seq<u8>) -> (i: int)
    requires
        valid_utf8(bytes + more),
    ensures
        0 <= i <= bytes.len() <= i + 3,
        valid_utf8(bytes.take(i)),
        i == bytes.len() || unfinished(bytes.skip(i)),
    decreases bytes.len(),
{
    let all = bytes + more;
    if bytes.len() == 0 {
        assert(bytes.take(0).len() == 0);
        0
    } else {
        let len = length_of_first_scalar(all);
        lemma_first_scalar(all);
        if len > bytes.len() {
            assert(bytes.take(0).len() == 0);
            assert(bytes.skip(0) =~= bytes);
            assert(forall|j: int| 0 <= j < bytes.len() ==> bytes[j] == all[j]);
            0
        } else {
            let rest = bytes.skip(len);
            assert(pop_first_scalar(all) =~= rest + more);
            let i = lemma_starts_unfinished(rest, more);
            let head = bytes.take(len);
            assert(valid_leading_and_continuation_bytes_first_codepoint(head));
            lemma_first_scalar(head);
            assert(pop_first_scalar(head).len() == 0);
            assert(valid_utf8(pop_first_scalar(head)));
            assert(valid_utf8(head));
            valid_utf8_concat(head, rest.take(i));
            assert(bytes.take(len + i) =~= head + rest.take(i));
            assert(bytes.skip(len + i) =~= rest.skip(i));
            len + i
        }
    }
}

/// Whether the bytes are the start of a sequence that stands for one character.
fn is_unfinished(bytes: &[u8]) -> (r: bool)
    ensures
        r == unfinished(bytes@),
{
    let len: usize = bytes.len();
    if len == 0 || len > 3 {
        return false;
    }
    let first: u8 = bytes[0];
    if len == 1 {
        return 0xc2 <= first && first <= 0xf4;
    }
    let second: u8 = bytes[1];
    let low: u8 = if first == 0xe0 {
        0xa0
    } else if first == 0xf0 {
        0x90
    } else {
        0x80
    };
    let high: u8 = if first == 0xed {
        0x9f
    } else if first == 0xf4 {
        0x8f
    } else {
        0xbf
    };
    if first > 0xf4 || second < low || high < second {
        return false;
    }
    if len == 2 {
        return 0xe0 <= first;
    }
    0xf0 <= first && 0x80 <= bytes[2] && bytes[2] <= 0xbf
}

/// Whether the bytes are the start of a text.
pub fn can_start_text(bytes: &[u8]) -> (r: bool)
    ensures
        r == starts_text(bytes@),
{
    let len: usize = bytes.len();
    let mut missing: usize = 0;
    while missing <= 3 && missing <= len
        invariant
            len == bytes@.len(),
            missing <= 4,
            forall|i: int|
                len - missing < i <= len && 0 <= i ==> !(valid_utf8(#[trigger] bytes@.take(i)) && (i
                    == len || unfinished(bytes@.skip(i)))),
        decreases 4 - missing,
    {
        let (text, rest) = bytes.split_at(len - missing);
        assert(text@ =~= bytes@.take(len - missing));
        assert(rest@ =~= bytes@.skip(len - missing));
        if from_utf8(text).is_some() && (missing == 0 || is_unfinished(rest)) {
            proof {
                lemma_unfinished_starts(bytes@, len - missing);
            }
            return true;
        }
        missing += 1;
    }
    proof {
        if starts_text(bytes@) {
            let more = choose|more: Seq<u8>| valid_utf8(#[trigger] (bytes@ + more));
            let i = lemma_starts_unfinished(bytes@, more);
            assert(valid_utf8(bytes@.take(i)));
        }
    }
    false
}

/// `String::push`: the character is appended.
#[verifier::external_body]
pub(crate) fn push_char(text: &mut String, c: char)
    ensures
        final(text)@ == old(text)@.push(c),
{
    text.push(c);
}

/// The characters of `text`.
pub fn chars_of(text: &str) -> (r: Vec<char>)
    ensures
        r@ == text@,
{
    let mut out: Vec<char> = Vec::new();
    for c in iter: text.chars()
        invariant
            iter.seq() == text@,
            out@ == text@.take(iter.index()),
    {
        out.push(c);
        assert(text@.take(iter.index()).push(c) =~= text@.take(iter.index() + 1));
    }
    assert(text@.take(text@.len() as int) =~= text@);
    out
}

/// Whether two byte sequences are equal.
pub fn same_bytes(a: &[u8], b: &[u8]) -> (r: bool)
    ensures
        r == (a@ == b@),
{
    if a.len() != b.len() {
        return false;
    }
    let mut i: usize = 0;
    while i < a.len()
        invariant
            a@.len() == b@.len(),
            i <= a@.len(),
            forall|j: int| 0 <= j < i ==> a@[j] == b@[j],
        decreases a@.len() - i,
    {
        if a[i] != b[i] {
            return false;
        }
        i += 1;
    }
    assert(a@ =~= b@);
    true
}

/// Whether two texts are equal.
pub fn same_text(a: &str, b: &str) -> (r: bool)
    ensures
        r == (a@ == b@),
{
    proof {
        encode_utf8_decode_utf8(a@);
        encode_utf8_decode_utf8(b@);
    }
    same_bytes(a.as_bytes(), b.as_bytes())
}

/// Whether a character is white space.
pub fn is_white(c: char) -> (r: bool)
    ensures
        r == white(c),
{
    ('\u{9}' <= c && c <= '\u{d}') || c == '\u{20}' || c == '\u{85}' || c == '\u{a0}' || c
        == '\u{1680}' || ('\u{2000}' <= c && c <= '\u{200a}') || c == '\u{2028}' || c == '\u{2029}'
        || c == '\u{202f}' || c == '\u{205f}' || c == '\u{3000}'
}

/// Whether a character is a control character.
pub fn is_control(c: char) -> (r: bool)
    ensures
        r == control(c),
{
    c <= '\u{1f}' || ('\u{7f}' <= c && c <= '\u{9f}')
}

/// The parts of `s` before and after the first `c`.
pub fn split_once(s: &str, c: char) -> (r: Option<(&str, &str)>)
    ensures
        match r {
            Some((before, after)) => split_at_char(s@, c) == Some((before@, after@)),
            None => split_at_char(s@, c) is None,
        },
{
    let chars = chars_of(s);
    let mut i: usize = 0;
    while i < chars.len()
        invariant
            chars@ == s@,
            i <= chars@.len(),
            find(s@, c, 0) == find(s@, c, i as int),
        decreases chars@.len() - i,
    {
        if chars[i] == c {
            let before = s.substring_char(0, i);
            let after = s.substring_char(i + 1, chars.len());
            assert(before@ =~= s@.take(i as int));
            assert(after@ =~= s@.skip(i + 1));
            return Some((before, after));
        }
        i += 1;
    }
    None
}

/// What follows `prefix` at the start of `s`.
pub fn strip_prefix<'a>(s: &'a str, prefix: &str) -> (r: Option<&'a str>)
    ensures
        match r {
            Some(rest) => without_prefix(s@, prefix@) == Some(rest@),
            None => without_prefix(s@, prefix@) is None,
        },
{
    let len = s.unicode_len();
    let prefix_len = prefix.unicode_len();
    if len < prefix_len {
        return None;
    }
    let head = s.substring_char(0, prefix_len);
    assert(head@ =~= s@.take(prefix_len as int));
    if !same_text(head, prefix) {
        return None;
    }
    let rest = s.substring_char(prefix_len, len);
    assert(rest@ =~= s@.skip(prefix_len as int));
    Some(rest)
}

/// The first word of `s` and what follows it.
pub fn next_word(s: &str) -> (r: Option<(&str, &str)>)
    ensures
        match r {
            Some((word, rest)) => first_word(s@) == Some((word@, rest@)),
            None => first_word(s@) is None,
        },
{
    let chars = chars_of(s);
    let mut start: usize = 0;
    while start < chars.len() && is_white(chars[start])
        invariant
            chars@ == s@,
            start <= chars@.len(),
            skip_white(s@, 0) == skip_white(s@, start as int),
        decreases chars@.len() - start,
    {
        start += 1;
    }
    if start >= chars.len() {
        return None;
    }
    let mut end: usize = start;
    while end < chars.len() && !is_white(chars[end])
        invariant
            chars@ == s@,
            start <= end <= chars@.len(),
            skip_word(s@, start as int) == skip_word(s@, end as int),
        decreases chars@.len() - end,
    {
        end += 1;
    }
    let word = s.substring_char(start, end);
    let rest = s.substring_char(end, chars.len());
    assert(rest@ =~= s@.skip(end as int));
    Some((word, rest))
}

/// `s` without the white space at its start and end.
pub fn trim(s: &str) -> (r: &str)
    ensures
        r@ == trimmed(s@),
{
    let chars = chars_of(s);
    let mut start: usize = 0;
    while start < chars.len() && is_white(chars[start])
        invariant
            chars@ == s@,
            start <= chars@.len(),
            skip_white(s@, 0) == skip_white(s@, start as int),
        decreases chars@.len() - start,
    {
        start += 1;
    }
    let mut end: usize = chars.len();
    proof {
        assert(s@.subrange(start as int, end as int) =~= s@.skip(start as int));
    }
    while start < end && is_white(chars[end - 1])
        invariant
            chars@ == s@,
            start <= end <= chars@.len(),
            trimmed(s@) == trimmed_end(s@.subrange(start as int, end as int)),
        decreases end,
    {
        assert(s@.subrange(start as int, end as int).drop_last() =~= s@.subrange(
            start as int,
            end - 1,
        ));
        end -= 1;
    }
    s.substring_char(start, end)
}

/// The parts of `s` between occurrences of `c`.
pub fn split(s: &str, c: char) -> (r: Vec<&str>)
    ensures
        r@.map_values(|part: &str| part@) == split_all(s@, c, 0, 0),
{
    let chars = chars_of(s);
    let mut out: Vec<&str> = Vec::new();
    let ghost mut done: Seq<Seq<char>> = Seq::empty();
    let mut start: usize = 0;
    let mut i: usize = 0;
    assert(done + split_all(s@, c, 0, 0) =~= split_all(s@, c, 0, 0));
    assert(out@.map_values(|part: &str| part@) =~= done);
    while i < chars.len()
        invariant
            chars@ == s@,
            start <= i <= chars@.len(),
            split_all(s@, c, 0, 0) == done + split_all(s@, c, start as int, i as int),
            out@.map_values(|part: &str| part@) == done,
        decreases chars@.len() - i,
    {
        if chars[i] == c {
            let part = s.substring_char(start, i);
            let ghost before = out@;
            out.push(part);
            proof {
                let rest = split_all(s@, c, i + 1, i + 1);
                assert(done + (seq![part@] + rest) =~= done.push(part@) + rest);
                assert(out@.map_values(|part: &str| part@) =~= before.map_values(
                    |part: &str| part@,
                ).push(part@));
                done = done.push(part@);
            }
            start = i + 1;
        }
        i += 1;
    }
    let part = s.substring_char(start, chars.len());
    let ghost before = out@;
    out.push(part);
    proof {
        assert(part@ =~= s@.skip(start as int));
        assert(out@.map_values(|part: &str| part@) =~= before.map_values(|part: &str| part@).push(
            part@,
        ));
        assert(done.push(part@) =~= done + seq![part@]);
    }
    out
}

/// The lines of `s`.
pub fn lines(s: &str) -> (r: Vec<&str>)
    ensures
        r@.map_values(|line: &str| line@) == lines_of(s@, 0, 0),
{
    let chars = chars_of(s);
    let mut out: Vec<&str> = Vec::new();
    let ghost mut done: Seq<Seq<char>> = Seq::empty();
    let mut start: usize = 0;
    let mut i: usize = 0;
    assert(done + lines_of(s@, 0, 0) =~= lines_of(s@, 0, 0));
    assert(out@.map_values(|line: &str| line@) =~= done);
    while i < chars.len()
        invariant
            chars@ == s@,
            start <= i <= chars@.len(),
            lines_of(s@, 0, 0) == done + lines_of(s@, start as int, i as int),
            out@.map_values(|line: &str| line@) == done,
        decreases chars@.len() - i,
    {
        if chars[i] == '\n' {
            let end: usize = if start < i && chars[i - 1] == '\r' {
                i - 1
            } else {
                i
            };
            let line = s.substring_char(start, end);
            let ghost before = out@;
            out.push(line);
            proof {
                assert(line@ =~= without_return(s@.subrange(start as int, i as int)));
                let rest = lines_of(s@, i + 1, i + 1);
                assert(done + (seq![line@] + rest) =~= done.push(line@) + rest);
                assert(out@.map_values(|line: &str| line@) =~= before.map_values(
                    |line: &str| line@,
                ).push(line@));
                done = done.push(line@);
            }
            start = i + 1;
        }
        i += 1;
    }
    if start < chars.len() {
        let line = s.substring_char(start, chars.len());
        let ghost before = out@;
        out.push(line);
        proof {
            assert(line@ =~= s@.skip(start as int));
            assert(out@.map_values(|line: &str| line@) =~= before.map_values(
                |line: &str| line@,
            ).push(line@));
            assert(done.push(line@) =~= done + seq![line@]);
        }
    } else {
        assert(done + Seq::<Seq<char>>::empty() =~= done);
    }
    out
}

/// The digits at the start of `s`.
pub fn leading_digits(s: &str) -> (r: &str)
    ensures
        r@ == s@.take(skip_digits(s@, 0)),
{
    let chars = chars_of(s);
    let mut i: usize = 0;
    while i < chars.len() && chars[i] >= '0' && chars[i] <= '9'
        invariant
            chars@ == s@,
            i <= chars@.len(),
            skip_digits(s@, 0) == skip_digits(s@, i as int),
        decreases chars@.len() - i,
    {
        i += 1;
    }
    let r = s.substring_char(0, i);
    assert(r@ =~= s@.take(i as int));
    r
}

proof fn lemma_decimal_grows(s: Seq<char>, n: int)
    requires
        0 <= n <= s.len(),
        forall|i: int| 0 <= i < s.len() ==> digit(#[trigger] s[i]),
    ensures
        0 <= decimal(s.take(n)) <= decimal(s),
    decreases s.len(),
{
    if n == s.len() {
        assert(s.take(n) =~= s);
        if s.len() > 0 {
            lemma_decimal_grows(s.drop_last(), n - 1);
            assert(digit(s[s.len() - 1]));
        }
    } else {
        assert(digit(s[s.len() - 1]));
        lemma_decimal_grows(s.drop_last(), n);
        assert(s.drop_last().take(n) =~= s.take(n));
    }
}

/// The number of eight bits that a text holds in decimal, as `u8::from_str` reads it.
pub fn parse_u8(s: &str) -> (r: Option<u8>)
    ensures
        r == u8_in(s@),
{
    let chars = chars_of(s);
    let start: usize = if chars.len() > 0 && chars[0] == '+' {
        1
    } else {
        0
    };
    let ghost digits = unsigned_digits(s@);
    proof {
        assert(digits =~= s@.skip(start as int));
    }
    if start >= chars.len() {
        return None;
    }
    let mut value: u32 = 0;
    let mut large = false;
    let mut i: usize = start;
    assert(digits.take(0) =~= Seq::empty());
    while i < chars.len()
        invariant
            chars@ == s@,
            start <= i <= chars@.len(),
            digits == s@.skip(start as int),
            digits == unsigned_digits(s@),
            forall|j: int| 0 <= j < i - start ==> digit(#[trigger] digits[j]),
            !large ==> value == decimal(digits.take(i - start)) && value <= 255,
            large ==> decimal(digits.take(i - start)) > 255,
        decreases chars@.len() - i,
    {
        let c = chars[i];
        assert(digits[i - start] == c);
        if c < '0' || c > '9' {
            assert(!digit(digits[i - start]));
            return None;
        }
        proof {
            let taken = digits.take(i - start + 1);
            assert(taken.drop_last() =~= digits.take(i - start));
            assert(taken.last() == c);
            lemma_decimal_grows(digits.take(i - start), 0);
        }
        if !large {
            value = value * 10 + (c as u32 - '0' as u32);
            if value > 255 {
                large = true;
            }
        }
        i += 1;
    }
    assert(digits.take(digits.len() as int) =~= digits);
    if large {
        None
    } else {
        Some(value as u8)
    }
}

} // verus!
