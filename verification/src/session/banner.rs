//! The warning for clients whose key exchange is not secure against quantum computers.

use vstd::prelude::*;
use vstd::utf8::{decode_utf8, encode_utf8, valid_utf8};

use crate::channels::{ChannelRequest, ChannelRequestType, ChannelRequestTypeView};
use crate::text::{from_utf8, leading_digits, parse_u8, same_bytes, skip_digits, split, split_all};
use crate::text::{split_at_char, split_once, u8_in};

verus! {

/// What each line of the warning starts with.
pub const PREFIX: &'static str = "WARNING: ";

/// The warning.
pub const NO_PQ_WARNING: &'static str =
    "the client negotiated a key exchange algorithm that is not post-quantum secure; your session may be decrypted by a cryptographically relevant quantum computer in the future";

/// The advice for users of old OpenSSH clients.
pub const NO_PQ_WARNING_OPENSSH: &'static str =
    "consider upgrading your client version to OpenSSH 9.9 or newer";

/// The width at which the warning is wrapped. A zero dimension means the client left it
/// unspecified (RFC 4254 section 6.2).
pub open spec fn banner_width(cols: u32) -> int {
    if cols == 0 {
        80
    } else if cols < 40 {
        40
    } else {
        cols as int
    }
}

/// The words from index `i` on, each followed by a space and put on a new line where there is not
/// enough room left, after the text so far.
pub open spec fn wrapped(
    words: Seq<Seq<char>>,
    i: int,
    left: int,
    width: int,
    text: Seq<char>,
) -> Seq<char>
    decreases words.len() - i,
{
    if i >= words.len() {
        text
    } else {
        let len = words[i].len() + 1;
        let (start, room) = if len >= left {
            (text + "\r\n"@ + PREFIX@, width - 9)
        } else {
            (text, left)
        };
        wrapped(
            words,
            i + 1,
            if room < len {
                0
            } else {
                room - len
            },
            width,
            start + words[i] + " "@,
        )
    }
}

/// The version of an OpenSSH client.
pub open spec fn openssh_version(identity: Seq<u8>) -> Option<(u8, u8)> {
    let prefix = encode_utf8("SSH-2.0-OpenSSH_"@);
    let version = identity.skip(prefix.len() as int);
    if identity.len() < prefix.len() || identity.take(prefix.len() as int) != prefix
        || !valid_utf8(version) {
        None
    } else {
        match split_at_char(decode_utf8(version), '.') {
            None => None,
            Some((major, minor)) => match (u8_in(major), u8_in(minor.take(skip_digits(minor, 0)))) {
                (Some(major), Some(minor)) => Some((major, minor)),
                _ => None,
            },
        }
    }
}

/// The text for a client whose terminal has the given width.
pub open spec fn banner_text(cols: u32, identity: Seq<u8>) -> Seq<char> {
    let width = banner_width(cols);
    let warning = wrapped(split_all(NO_PQ_WARNING@, ' ', 0, 0), 0, width - 9, width, PREFIX@)
        + "\r\n"@;
    match openssh_version(identity) {
        Some((major, minor)) if major < 9 || (major == 9 && minor < 9) => warning + PREFIX@
            + NO_PQ_WARNING_OPENSSH@ + "\r\n"@,
        _ => warning,
    }
}

fn version_of(client_identity: &[u8]) -> (r: Option<(u8, u8)>)
    ensures
        r == openssh_version(client_identity@),
{
    let prefix = "SSH-2.0-OpenSSH_".as_bytes();
    if client_identity.len() < prefix.len() {
        return None;
    }
    let (start, version) = client_identity.split_at(prefix.len());
    assert(start@ =~= client_identity@.take(prefix@.len() as int));
    assert(version@ =~= client_identity@.skip(prefix@.len() as int));
    if !same_bytes(start, prefix) {
        return None;
    }
    let Some(version) = from_utf8(version) else {
        return None;
    };
    let Some((major, minor)) = split_once(version, '.') else {
        return None;
    };
    let minor = leading_digits(minor);
    match (parse_u8(major), parse_u8(minor)) {
        (Some(major), Some(minor)) => Some((major, minor)),
        _ => None,
    }
}

/// The banner for a request: the warning, where a terminal is asked for and the key exchange is
/// not secure against quantum computers.
pub fn banner(request: &ChannelRequest<'_>, client_identity: &[u8], post_quantum_kx: bool) -> (r:
    Option<String>)
    ensures
        request_banner(request@.request_type, client_identity@, post_quantum_kx) == match r {
            Some(text) => Some(text@),
            None => None,
        },
{
    if post_quantum_kx {
        return None;
    }
    let cols: u32 = match &request.request_type {
        ChannelRequestType::PtyReq(pty) => pty.cols,
        _ => return None,
    };
    // A zero dimension means the client left it unspecified (RFC 4254 section 6.2)
    let width: usize = match cols {
        0 => 80,
        cols => if cols < 40 {
            40
        } else {
            cols as usize
        },
    };

    let mut banner = String::new();
    banner.append(PREFIX);
    proof {
        reveal_strlit("WARNING: ");
        assert(banner@ =~= PREFIX@);
    }
    let words = split(NO_PQ_WARNING, ' ');
    let ghost all = split_all(NO_PQ_WARNING@, ' ', 0, 0);
    let mut left: usize = width - 9;
    let mut i: usize = 0;
    while i < words.len()
        invariant
            words@.map_values(|part: &str| part@) == all,
            i <= words@.len(),
            9 <= width,
            wrapped(all, 0, width - 9, width as int, PREFIX@) == wrapped(
                all,
                i as int,
                left as int,
                width as int,
                banner@,
            ),
        decreases words@.len() - i,
    {
        let token = words[i];
        assert(all[i as int] == token@);
        let len: usize = token.unicode_len();
        if left <= 1 || len >= left - 1 {
            banner.append("\r\n");
            banner.append(PREFIX);
            left = width - 9;
        }
        banner.append(token);
        banner.append(" ");
        left = if left == 0 || left - 1 < len {
            0
        } else {
            left - 1 - len
        };
        i += 1;
    }
    banner.append("\r\n");
    if let Some((major, minor)) = version_of(client_identity) {
        if major < 9 || (major == 9 && minor < 9) {
            banner.append(PREFIX);
            banner.append(NO_PQ_WARNING_OPENSSH);
            banner.append("\r\n");
        }
    }
    Some(banner)
}

/// The banner for a request, if there is one.
pub open spec fn request_banner(
    request: ChannelRequestTypeView,
    identity: Seq<u8>,
    post_quantum_kx: bool,
) -> Option<Seq<char>> {
    match request {
        ChannelRequestTypeView::PtyReq(pty) if !post_quantum_kx => Some(
            banner_text(pty.cols, identity),
        ),
        _ => None,
    }
}

/// More bytes than a banner takes.
pub const MAX_BANNER_LEN: usize = 32_768;

proof fn lemma_encoded_len(text: Seq<char>)
    ensures
        encode_utf8(text).len() <= 4 * text.len(),
    decreases text.len(),
{
    if text.len() > 0 {
        lemma_encoded_len(text.drop_first());
    }
}

proof fn lemma_split_len(text: Seq<char>, c: char, start: int, i: int)
    requires
        0 <= start <= i <= text.len(),
    ensures
        split_all(text, c, start, i).len() <= text.len() - i + 1,
    decreases text.len() - i,
{
    if i < text.len() {
        if text[i] == c {
            lemma_split_len(text, c, i + 1, i + 1);
        } else {
            lemma_split_len(text, c, start, i + 1);
        }
    }
}

proof fn lemma_wrapped_len(words: Seq<Seq<char>>, i: int, left: int, width: int, text: Seq<char>)
    requires
        0 <= i <= words.len(),
        forall|j: int| 0 <= j < words.len() ==> (#[trigger] words[j]).len() <= 29,
    ensures
        wrapped(words, i, left, width, text).len() <= text.len() + 41 * (words.len() - i),
    decreases words.len() - i,
{
    if i < words.len() {
        reveal_strlit("WARNING: ");
        reveal_strlit("\r\n");
        reveal_strlit(" ");
        let len = words[i].len() + 1;
        let (start, room) = if len >= left {
            (text + "\r\n"@ + PREFIX@, width - 9)
        } else {
            (text, left)
        };
        lemma_wrapped_len(
            words,
            i + 1,
            if room < len {
                0
            } else {
                room - len
            },
            width,
            start + words[i] + " "@,
        );
    }
}

/// A banner takes at most [`MAX_BANNER_LEN`] bytes.
pub proof fn banner_len_bound(cols: u32, identity: Seq<u8>)
    ensures
        encode_utf8(banner_text(cols, identity)).len() <= MAX_BANNER_LEN,
{
    reveal_strlit("WARNING: ");
    reveal_strlit("\r\n");
    reveal_strlit("consider upgrading your client version to OpenSSH 9.9 or newer");
    reveal_strlit(
        "the client negotiated a key exchange algorithm that is not post-quantum secure; your session may be decrypted by a cryptographically relevant quantum computer in the future",
    );
    let width = banner_width(cols);
    lemma_warning_words();
    lemma_split_len(NO_PQ_WARNING@, ' ', 0, 0);
    lemma_wrapped_len(split_all(NO_PQ_WARNING@, ' ', 0, 0), 0, width - 9, width, PREFIX@);
    lemma_encoded_len(banner_text(cols, identity));
}

/// The number of characters after the last line feed.
pub open spec fn column(text: Seq<char>) -> int
    decreases text.len(),
{
    if text.len() == 0 || text.last() == '\n' {
        0
    } else {
        column(text.drop_last()) + 1
    }
}

/// No line of a text takes more than the given number of columns.
pub open spec fn fits_width(text: Seq<char>, width: int) -> bool {
    forall|i: int| 0 <= i <= text.len() ==> column(#[trigger] text.take(i)) <= width
}

proof fn lemma_column(text: Seq<char>)
    ensures
        0 <= column(text),
    decreases text.len(),
{
    if text.len() > 0 {
        lemma_column(text.drop_last());
    }
}

proof fn lemma_append_fits(text: Seq<char>, more: Seq<char>, width: int)
    requires
        fits_width(text, width),
        column(text) + more.len() <= width,
    ensures
        fits_width(text + more, width),
        column(text + more) <= column(text) + more.len(),
    decreases more.len(),
{
    lemma_column(text);
    if more.len() == 0 {
        assert(text + more =~= text);
    } else {
        let front = more.drop_last();
        lemma_append_fits(text, front, width);
        assert((text + more).drop_last() =~= text + front);
        assert(column(text + more) <= column(text + front) + 1) by {
            lemma_column(text + front);
        }
        assert forall|i: int| 0 <= i <= (text + more).len() implies column(
            #[trigger] (text + more).take(i),
        ) <= width by {
            if i < (text + more).len() {
                assert((text + more).take(i) =~= (text + front).take(i));
            } else {
                assert((text + more).take(i) =~= text + more);
            }
        }
    }
}

proof fn lemma_break_fits(text: Seq<char>, width: int)
    requires
        fits_width(text, width),
        column(text) < width,
    ensures
        fits_width(text + "\r\n"@, width),
        column(text + "\r\n"@) == 0,
{
    reveal_strlit("\r\n");
    lemma_column(text);
    let ret = text.push('\r');
    let all = text + "\r\n"@;
    lemma_append_fits(text, seq!['\r'], width);
    assert(text + seq!['\r'] =~= ret);
    assert(all =~= ret.push('\n'));
    assert(all.last() == '\n');
    assert forall|i: int| 0 <= i <= all.len() implies column(#[trigger] all.take(i)) <= width by {
        if i < all.len() {
            assert(all.take(i) =~= ret.take(i));
        } else {
            assert(all.take(i) =~= all);
        }
    }
}

proof fn lemma_wrapped_fits(
    words: Seq<Seq<char>>,
    i: int,
    left: int,
    width: int,
    text: Seq<char>,
)
    requires
        0 <= i <= words.len(),
        40 <= width,
        1 <= left,
        column(text) <= width - left,
        fits_width(text, width),
        forall|j: int| 0 <= j < words.len() ==> (#[trigger] words[j]).len() <= 29,
    ensures
        fits_width(wrapped(words, i, left, width, text), width),
        column(wrapped(words, i, left, width, text)) < width,
    decreases words.len() - i,
{
    if i < words.len() {
        reveal_strlit("WARNING: ");
        reveal_strlit(" ");
        let len = words[i].len() as int + 1;
        let broken = text + "\r\n"@;
        let (start, room) = if len >= left {
            (broken + PREFIX@, width - 9)
        } else {
            (text, left)
        };
        if len >= left {
            lemma_break_fits(text, width);
            lemma_append_fits(broken, PREFIX@, width);
        }
        lemma_append_fits(start, words[i], width);
        lemma_append_fits(start + words[i], " "@, width);
        lemma_wrapped_fits(words, i + 1, room - len, width, start + words[i] + " "@);
    }
}

/// No word from index `i` on takes more than 29 characters, where a word starts at `start`.
spec fn short_words(text: Seq<char>, start: int, i: int) -> bool
    decreases text.len() - i,
{
    if i >= text.len() {
        text.len() - start <= 29
    } else if text[i] == ' ' {
        i - start <= 29 && short_words(text, i + 1, i + 1)
    } else {
        short_words(text, start, i + 1)
    }
}

proof fn lemma_short_words(text: Seq<char>, start: int, i: int)
    requires
        0 <= start <= i <= text.len(),
        short_words(text, start, i),
    ensures
        forall|j: int|
            0 <= j < split_all(text, ' ', start, i).len() ==> (#[trigger] split_all(
                text,
                ' ',
                start,
                i,
            )[j]).len() <= 29,
    decreases text.len() - i,
{
    if i >= text.len() {
    } else if text[i] == ' ' {
        lemma_short_words(text, i + 1, i + 1);
        let rest = split_all(text, ' ', i + 1, i + 1);
        assert forall|j: int| 0 <= j < split_all(text, ' ', start, i).len() implies (
        #[trigger] split_all(text, ' ', start, i)[j]).len() <= 29 by {
            if j > 0 {
                assert(split_all(text, ' ', start, i)[j] == rest[j - 1]);
            }
        }
    } else {
        lemma_short_words(text, start, i + 1);
        assert(split_all(text, ' ', start, i) == split_all(text, ' ', start, i + 1));
    }
}

/// Where a space is near enough, and no word behind it is long, no word is.
proof fn lemma_short_step(text: Seq<char>, start: int, i: int, space: int)
    requires
        0 <= start <= i <= space < text.len(),
        text[space] == ' ',
        space - start <= 29,
        short_words(text, space + 1, space + 1),
    ensures
        short_words(text, start, i),
    decreases text.len() - i,
{
    if i < space {
        if text[i] == ' ' {
            lemma_short_step(text, i + 1, i + 1, space);
        } else {
            lemma_short_step(text, start, i + 1, space);
        }
    }
}

/// Where the end is near enough, no word is long.
proof fn lemma_short_end(text: Seq<char>, start: int, i: int)
    requires
        0 <= start <= i <= text.len(),
        text.len() - start <= 29,
    ensures
        short_words(text, start, i),
    decreases text.len() - i,
{
    if i < text.len() {
        if text[i] == ' ' {
            lemma_short_end(text, i + 1, i + 1);
        } else {
            lemma_short_end(text, start, i + 1);
        }
    }
}

proof fn lemma_warning_words()
    ensures
        forall|j: int|
            0 <= j < split_all(NO_PQ_WARNING@, ' ', 0, 0).len() ==> (#[trigger] split_all(
                NO_PQ_WARNING@,
                ' ',
                0,
                0,
            )[j]).len() <= 29,
{
    reveal_strlit(
        "the client negotiated a key exchange algorithm that is not post-quantum secure; your session may be decrypted by a cryptographically relevant quantum computer in the future",
    );
    let warning = NO_PQ_WARNING@;
    assert(short_words(warning, 166, 166)) by {
        lemma_short_end(warning, 166, 166);
    }
    lemma_short_step(warning, 142, 142, 165);
    lemma_short_step(warning, 115, 115, 141);
    lemma_short_step(warning, 85, 85, 114);
    lemma_short_step(warning, 55, 55, 84);
    lemma_short_step(warning, 28, 28, 54);
    lemma_short_step(warning, 0, 0, 27);
    lemma_short_words(warning, 0, 0);
}

/// No line of the banner is wider than the terminal, but for the advice for OpenSSH clients on
/// terminals with fewer than 72 columns. Terminals that report no width count as having 80
/// columns, and those with fewer than 40 as having 40.
pub proof fn banner_fits(cols: u32, identity: Seq<u8>)
    ensures
        72 <= banner_width(cols) ==> fits_width(banner_text(cols, identity), banner_width(cols)),
        openssh_version(identity) is None ==> fits_width(
            banner_text(cols, identity),
            banner_width(cols),
        ),
{
    reveal_strlit("WARNING: ");
    reveal_strlit("consider upgrading your client version to OpenSSH 9.9 or newer");
    let width = banner_width(cols);
    let words = split_all(NO_PQ_WARNING@, ' ', 0, 0);
    let empty = Seq::<char>::empty();
    assert(fits_width(empty, width)) by {
        assert forall|i: int| 0 <= i <= empty.len() implies column(#[trigger] empty.take(i))
            <= width by {
            assert(empty.take(i) =~= empty);
        }
    }
    lemma_append_fits(empty, PREFIX@, width);
    assert(empty + PREFIX@ =~= PREFIX@);
    lemma_warning_words();
    lemma_wrapped_fits(words, 0, width - 9, width, PREFIX@);
    let wrapped = wrapped(words, 0, width - 9, width, PREFIX@);
    lemma_break_fits(wrapped, width);
    let warning = wrapped + "\r\n"@;
    if 72 <= width {
        lemma_append_fits(warning, PREFIX@, width);
        lemma_append_fits(warning + PREFIX@, NO_PQ_WARNING_OPENSSH@, width);
        lemma_break_fits(warning + PREFIX@ + NO_PQ_WARNING_OPENSSH@, width);
    }
}

} // verus!
