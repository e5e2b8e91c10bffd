//! The keys that a user may log in with, as listed in an `authorized_keys` file.

use vstd::prelude::*;
use vstd::utf8::encode_utf8;

use crate::auth::{EncodedSignature, PublicKey, SignatureInput};
use crate::crypto::{Provider, Verifier};
use crate::error::ProtoError;
use crate::named::{Named, PublicKeyAlgorithm, PublicKeyAlgorithmView};
use crate::text::{chars_of, first_word, is_white, next_word, push_char, same_bytes};
use crate::text::{strip_prefix, trim, trimmed, white, without_prefix};
use crate::wire::{parse_string, Decode, Decoded};

verus! {

/// What `BASE64.decode` of the `data_encoding` crate makes of `data`.
pub uninterp spec fn base64_decoded(data: Seq<u8>) -> Option<Seq<u8>>;

/// `data_encoding::BASE64.decode`: the bytes that the data encodes, or an error, here `None`.
/// Which bytes those are is named, not stated.
#[verifier::external_body]
fn decode_base64(data: &[u8]) -> (r: Option<Vec<u8>>)
    ensures
        match r {
            Some(bytes) => base64_decoded(data@) == Some(bytes@),
            None => base64_decoded(data@) is None,
        },
{
    data_encoding::BASE64.decode(data).ok()
}

/// Whether what follows the character is between double quotes. A double quote behind a backslash
/// neither starts nor ends them.
pub open spec fn quoted_after(c: char, in_quotes: bool, escaped: bool) -> bool {
    if c == '"' && !escaped {
        !in_quotes
    } else {
        in_quotes
    }
}

/// Whether the character is a backslash that takes away the meaning of what follows it.
pub open spec fn escaped_after(c: char, escaped: bool) -> bool {
    c == '\\' && !escaped
}

/// The index of the white space that ends the options at the start of a line. White space between
/// double quotes does not.
pub open spec fn options_end(line: Seq<char>, i: int, in_quotes: bool, escaped: bool) -> Option<int>
    decreases line.len() - i,
{
    if i >= line.len() {
        None
    } else if !in_quotes && white(line[i]) {
        Some(i)
    } else {
        options_end(
            line,
            i + 1,
            quoted_after(line[i], in_quotes, escaped),
            escaped_after(line[i], escaped),
        )
    }
}

/// The options at the start of `line` and what follows them.
pub open spec fn split_options(line: Seq<char>) -> Option<(Seq<char>, Seq<char>)> {
    match options_end(line, 0, false, false) {
        Some(end) => Some((line.take(end), line.skip(end))),
        None => None,
    }
}

fn advance_options<'a>(line: &'a str) -> (r: Option<(&'a str, &'a str)>)
    ensures
        match r {
            Some((options, rest)) => split_options(line@) == Some((options@, rest@)),
            None => split_options(line@) is None,
        },
{
    let chars = chars_of(line);
    let mut escaped = false;
    let mut in_quotes = false;
    let mut i: usize = 0;
    while i < chars.len()
        invariant
            chars@ == line@,
            i <= chars@.len(),
            options_end(line@, 0, false, false) == options_end(
                line@,
                i as int,
                in_quotes,
                escaped,
            ),
        decreases chars@.len() - i,
    {
        let c = chars[i];
        if !in_quotes && is_white(c) {
            let options = line.substring_char(0, i);
            let rest = line.substring_char(i, chars.len());
            assert(options@ =~= line@.take(i as int));
            assert(rest@ =~= line@.skip(i as int));
            return Some((options, rest));
        }
        if c == '"' && !escaped {
            in_quotes = !in_quotes;
        }
        escaped = c == '\\' && !escaped;
        i += 1;
    }
    None
}

/// Options of an authorized key.
pub struct AuthorizedKeyOptions {
    /// The command to be run in place of what the client asks for.
    pub command: Option<String>,
}

/// The command in the options.
pub open spec fn command_view(options: AuthorizedKeyOptions) -> Option<Seq<char>> {
    match options.command {
        Some(command) => Some(command@),
        None => None,
    }
}

impl Clone for AuthorizedKeyOptions {
    fn clone(&self) -> (r: Self)
        ensures
            command_view(r) == command_view(*self),
    {
        AuthorizedKeyOptions {
            command: match &self.command {
                Some(command) => Some(command.clone()),
                None => None,
            },
        }
    }
}

/// The contents of the rest of a quoted text, given what came before. A double quote behind a
/// backslash stands for itself; before any other character a backslash stays.
pub open spec fn unquoted(text: Seq<char>, i: int, before: Seq<char>, escaped: bool) -> Option<
    Seq<char>,
>
    decreases text.len() - i,
{
    if i >= text.len() {
        None
    } else if escaped {
        unquoted(
            text,
            i + 1,
            if text[i] == '"' {
                before.push('"')
            } else {
                before.push('\\').push(text[i])
            },
            false,
        )
    } else if text[i] == '\\' {
        unquoted(text, i + 1, before, true)
    } else if text[i] == '"' {
        Some(before)
    } else {
        unquoted(text, i + 1, before.push(text[i]), false)
    }
}

/// The contents of the quoted text that starts at index `i`.
pub open spec fn dequoted(text: Seq<char>, i: int) -> Option<Seq<char>> {
    if i >= text.len() || text[i] != '"' {
        None
    } else {
        unquoted(text, i + 1, Seq::empty(), false)
    }
}

/// What looking for options comes to.
pub enum OptionScan {
    /// The options are not acceptable; what follows this index was not looked at.
    Refused(int),
    /// All was looked at, and this is the command, if there is one.
    Found(Option<Seq<char>>),
}

/// Whether `text` holds `command=` at index `i`.
pub open spec fn at_command(text: Seq<char>, i: int) -> bool {
    0 <= i && i + 8 <= text.len() && text.subrange(i, i + 8) == "command="@
}

/// What looking for options from index `i` on comes to, given the command found before.
///
/// Options are separated by commas; a comma between double quotes is part of an option. There may
/// be one command, and it has to be quoted. Other options are passed over.
pub open spec fn scan_options(
    text: Seq<char>,
    i: int,
    starts: bool,
    in_quotes: bool,
    escaped: bool,
    command: Option<Seq<char>>,
) -> OptionScan
    decreases text.len() - i,
{
    if i >= text.len() {
        OptionScan::Found(command)
    } else if starts && at_command(text, i) {
        match (command, dequoted(text, i + 8)) {
            (None, Some(found)) => scan_options(text, i + 8, false, false, false, Some(found)),
            _ => OptionScan::Refused(i + 8),
        }
    } else {
        scan_options(
            text,
            i + 1,
            !in_quotes && text[i] == ',',
            quoted_after(text[i], in_quotes, escaped),
            escaped_after(text[i], escaped),
            command,
        )
    }
}

/// What looking for options in a text comes to.
pub open spec fn scanned(text: Seq<char>) -> OptionScan {
    scan_options(text, 0, true, false, false, None)
}

/// The command that the options hold, where they are acceptable.
pub open spec fn options_command(text: Seq<char>) -> Option<Seq<char>> {
    match scanned(text) {
        OptionScan::Found(command) => command,
        OptionScan::Refused(_) => None,
    }
}

/// Whether `text` holds `command=` at index `i`.
fn is_at_command(text: &Vec<char>, i: usize) -> (r: bool)
    requires
        i < text@.len(),
    ensures
        r == at_command(text@, i as int),
{
    if text.len() - i < 8 {
        return false;
    }
    proof {
        reveal_strlit("command=");
        let part = text@.subrange(i as int, i + 8);
        if part == "command="@ {
            assert(part[0] == text@[i as int] && part[1] == text@[i + 1] && part[2] == text@[i + 2]
                && part[3] == text@[i + 3] && part[4] == text@[i + 4] && part[5] == text@[i + 5]
                && part[6] == text@[i + 6] && part[7] == text@[i + 7]);
        }
    }
    let r = text[i] == 'c' && text[i + 1] == 'o' && text[i + 2] == 'm' && text[i + 3] == 'm'
        && text[i + 4] == 'a' && text[i + 5] == 'n' && text[i + 6] == 'd' && text[i + 7] == '=';
    proof {
        if r {
            assert(text@.subrange(i as int, i + 8) =~= "command="@);
        }
    }
    r
}

impl AuthorizedKeyOptions {
    fn dequote(text: &Vec<char>, start: usize) -> (r: Option<String>)
        requires
            start <= text@.len(),
        ensures
            match r {
                Some(contents) => dequoted(text@, start as int) == Some(contents@),
                None => dequoted(text@, start as int) is None,
            },
    {
        if start >= text.len() || text[start] != '"' {
            return None;
        }
        let mut result = String::new();
        let mut escaped = false;
        let mut i: usize = start + 1;
        assert(result@ =~= Seq::<char>::empty());
        while i < text.len()
            invariant
                start < i <= text@.len(),
                dequoted(text@, start as int) == unquoted(text@, i as int, result@, escaped),
            decreases text@.len() - i,
        {
            let c = text[i];
            if escaped {
                if c != '"' {
                    push_char(&mut result, '\\');
                }
                push_char(&mut result, c);
                escaped = false;
            } else if c == '\\' {
                escaped = true;
            } else if c == '"' {
                return Some(result);
            } else {
                push_char(&mut result, c);
            }
            i += 1;
        }
        None
    }

    /// Read the options in `text`, which is left holding what was not looked at.
    pub fn from_str<'a>(text: &mut &'a str) -> (r: Option<Self>)
        ensures
            match r {
                Some(options) => {
                    &&& command_view(options) is Some
                    &&& options_command(old(text)@) == command_view(options)
                },
                None => options_command(old(text)@) is None,
            },
            final(text)@ == match scanned(old(text)@) {
                OptionScan::Refused(i) => old(text)@.skip(i),
                OptionScan::Found(_) => Seq::<char>::empty(),
            },
    {
        let all: &'a str = *text;
        let chars = chars_of(all);
        let mut command: Option<String> = None;
        let mut starts = true;
        let mut in_quotes = false;
        let mut escaped = false;
        let mut i: usize = 0;
        while i < chars.len()
            invariant
                chars@ == all@,
                i <= chars@.len(),
                scanned(all@) == scan_options(
                    all@,
                    i as int,
                    starts,
                    in_quotes,
                    escaped,
                    command_view(AuthorizedKeyOptions { command }),
                ),
                all@ == old(text)@,
            decreases chars@.len() - i,
        {
            if starts && is_at_command(&chars, i) {
                let rest = all.substring_char(i + 8, chars.len());
                assert(rest@ =~= all@.skip(i + 8));
                if command.is_some() {
                    *text = rest;
                    return None;
                }
                let Some(contents) = AuthorizedKeyOptions::dequote(&chars, i + 8) else {
                    *text = rest;
                    return None;
                };
                command = Some(contents);
                i += 8;
                starts = false;
                in_quotes = false;
                escaped = false;
            } else {
                let c = chars[i];
                starts = !in_quotes && c == ',';
                if c == '"' && !escaped {
                    in_quotes = !in_quotes;
                }
                escaped = c == '\\' && !escaped;
                i += 1;
            }
        }
        let rest = all.substring_char(chars.len(), chars.len());
        assert(rest@ =~= Seq::<char>::empty());
        *text = rest;
        if command.is_some() {
            Some(AuthorizedKeyOptions { command })
        } else {
            None
        }
    }
}

/// The fields of a line of an `authorized_keys` file.
pub struct KeyLineView {
    /// The algorithm of the key.
    pub algorithm: PublicKeyAlgorithmView,
    /// The options before the key, if there are any.
    pub options: Option<Seq<char>>,
    /// The encoded key.
    pub key_data: Seq<char>,
}

/// The contents of a line, without white space around them. A line that starts with `#` is a
/// comment and has none.
pub open spec fn line_contents(line: Seq<char>) -> Seq<char> {
    let contents = trimmed(line);
    if without_prefix(contents, "#"@) is Some {
        Seq::empty()
    } else {
        contents
    }
}

/// The fields of a line: options where it does not start with a known algorithm, the algorithm,
/// and the encoded key.
pub open spec fn key_line(line: Seq<char>) -> Option<KeyLineView> {
    let key = line_contents(line);
    match first_word(key) {
        None => None,
        Some((word, rest)) => {
            let algorithm = PublicKeyAlgorithm::spec_typed(word);
            if !(algorithm is Unknown) {
                match first_word(rest) {
                    None => None,
                    Some((key_data, _)) => Some(
                        KeyLineView { algorithm, options: None, key_data },
                    ),
                }
            } else {
                match split_options(key) {
                    None => None,
                    Some((options, rest)) => match first_word(rest) {
                        None => None,
                        Some((word, rest)) => match first_word(rest) {
                            None => None,
                            Some((key_data, _)) => Some(
                                KeyLineView {
                                    algorithm: PublicKeyAlgorithm::spec_typed(word),
                                    options: Some(options),
                                    key_data,
                                },
                            ),
                        },
                    },
                }
            }
        },
    }
}

/// The public value in a public key blob, where the blob is for the algorithm.
pub open spec fn blob_key(algorithm: PublicKeyAlgorithmView, blob: Seq<u8>) -> Option<Seq<u8>> {
    match parse_string(blob) {
        Err(_) => None,
        Ok((key_type, next)) => if key_type != encode_utf8(PublicKeyAlgorithm::spec_name(algorithm)) {
            None
        } else {
            match algorithm {
                PublicKeyAlgorithmView::EcdsaSha2Nistp256 => match parse_string(next) {
                    Err(_) => None,
                    Ok((_, next)) => match parse_string(next) {
                        Err(_) => None,
                        Ok((value, next)) => if next.len() != 0 {
                            None
                        } else {
                            Some(value)
                        },
                    },
                },
                PublicKeyAlgorithmView::Ed25519 => match parse_string(next) {
                    Err(_) => None,
                    Ok((value, next)) => if next.len() != 0 {
                        None
                    } else {
                        Some(value)
                    },
                },
                PublicKeyAlgorithmView::Unknown(_) => None,
            }
        },
    }
}

/// What an authorized key is.
pub struct AuthorizedKeyView {
    /// The algorithm of the key.
    pub algorithm: PublicKeyAlgorithmView,
    /// The public key blob.
    pub blob: Seq<u8>,
    /// The key for verifying signatures.
    pub key: Verifier,
    /// The command of the options.
    pub command: Option<Seq<char>>,
}

/// The key with the given algorithm, blob and command.
pub open spec fn key_from_blob(
    algorithm: PublicKeyAlgorithmView,
    blob: Seq<u8>,
    command: Option<Seq<char>>,
    provider: Provider<'_>,
) -> Option<AuthorizedKeyView> {
    match blob_key(algorithm, blob) {
        None => None,
        Some(value) => match provider.0.spec_verifying_key(value, algorithm) {
            Err(_) => None,
            Ok(key) => Some(AuthorizedKeyView { algorithm, blob, key, command }),
        },
    }
}

/// The key with the given algorithm and command, and the given blob in base64.
pub open spec fn key_from_base64(
    algorithm: PublicKeyAlgorithmView,
    key_data: Seq<char>,
    command: Option<Seq<char>>,
    provider: Provider<'_>,
) -> Option<AuthorizedKeyView> {
    match base64_decoded(encode_utf8(key_data)) {
        None => None,
        Some(blob) => key_from_blob(algorithm, blob, command, provider),
    }
}

/// The key that a line of an `authorized_keys` file describes.
pub open spec fn key_from_line(line: Seq<char>, provider: Provider<'_>) -> Option<
    AuthorizedKeyView,
> {
    match key_line(line) {
        None => None,
        Some(fields) => key_from_base64(
            fields.algorithm,
            fields.key_data,
            match fields.options {
                None => None,
                Some(options) => options_command(options),
            },
            provider,
        ),
    }
}

/// The fields of a line of an `authorized_keys` file.
pub struct KeyLine<'a> {
    /// The algorithm of the key.
    pub algorithm: PublicKeyAlgorithm<'a>,
    /// The options before the key, if there are any.
    pub options: Option<&'a str>,
    /// The encoded key.
    pub key_data: &'a str,
}

impl View for KeyLine<'_> {
    type V = KeyLineView;

    open spec fn view(&self) -> KeyLineView {
        KeyLineView {
            algorithm: self.algorithm@,
            options: match self.options {
                Some(options) => Some(options@),
                None => None,
            },
            key_data: self.key_data@,
        }
    }
}

fn contents_of(line: &str) -> (r: &str)
    ensures
        r@ == line_contents(line@),
{
    let contents = trim(line);
    match strip_prefix(contents, "#") {
        Some(_) => {
            proof {
                reveal_strlit("");
                assert(""@ =~= Seq::<char>::empty());
            }
            ""
        },
        None => contents,
    }
}

impl<'a> KeyLine<'a> {
    /// Split a line into its fields.
    pub fn split(line: &'a str) -> (r: Option<Self>)
        ensures
            match r {
                Some(fields) => key_line(line@) == Some(fields@),
                None => key_line(line@) is None,
            },
    {
        let key = contents_of(line);
        let Some((word, rest)) = next_word(key) else {
            return None;
        };
        match PublicKeyAlgorithm::typed(word) {
            PublicKeyAlgorithm::Unknown(_) => {},
            algorithm => {
                let Some((key_data, _)) = next_word(rest) else {
                    return None;
                };
                return Some(KeyLine { algorithm, options: None, key_data });
            },
        }
        let Some((options, rest)) = advance_options(key) else {
            return None;
        };
        let Some((word, rest)) = next_word(rest) else {
            return None;
        };
        let algorithm = PublicKeyAlgorithm::typed(word);
        let Some((key_data, _)) = next_word(rest) else {
            return None;
        };
        Some(KeyLine { algorithm, options: Some(options), key_data })
    }
}

/// An authorized public key for a user.
pub struct AuthorizedKey {
    algorithm: PublicKeyAlgorithm<'static>,
    blob: Vec<u8>,
    key: Verifier,
    key_option: Option<AuthorizedKeyOptions>,
}

impl View for AuthorizedKey {
    type V = AuthorizedKeyView;

    closed spec fn view(&self) -> AuthorizedKeyView {
        AuthorizedKeyView {
            algorithm: self.algorithm@,
            blob: self.blob@,
            key: self.key,
            command: match self.key_option {
                Some(options) => command_view(options),
                None => None,
            },
        }
    }
}

impl Clone for AuthorizedKey {
    fn clone(&self) -> (r: Self)
        ensures
            r@ == self@,
    {
        AuthorizedKey {
            algorithm: self.algorithm.clone(),
            blob: crate::crypto::copied(self.blob.as_slice()),
            key: self.key.clone(),
            key_option: match &self.key_option {
                Some(options) => Some(options.clone()),
                None => None,
            },
        }
    }
}

impl AuthorizedKey {
    /// Build an `AuthorizedKey` from a string in the format used in `authorized_keys`.
    pub fn from_str(s: &str, provider: Provider<'_>) -> (r: Option<Self>)
        ensures
            match r {
                Some(key) => key_from_line(s@, provider) == Some(key@),
                None => key_from_line(s@, provider) is None,
            },
    {
        let Some(KeyLine { algorithm, options, key_data }) = KeyLine::split(s) else {
            return None;
        };
        let key_option = match options {
            Some(options) => {
                let mut options = options;
                AuthorizedKeyOptions::from_str(&mut options)
            },
            None => None,
        };
        AuthorizedKey::from_base64(algorithm, key_data, key_option, provider)
    }

    /// Build an `AuthorizedKey` from a public key blob in base64.
    pub fn from_base64(
        algorithm: PublicKeyAlgorithm<'_>,
        key_data: &str,
        key_option: Option<AuthorizedKeyOptions>,
        provider: Provider<'_>,
    ) -> (r: Option<Self>)
        ensures
            ({
                let command = match key_option {
                    Some(options) => command_view(options),
                    None => None,
                };
                let key = key_from_base64(algorithm@, key_data@, command, provider);
                match r {
                    Some(found) => key == Some(found@),
                    None => key is None,
                }
            }),
    {
        let Some(blob) = decode_base64(key_data.as_bytes()) else {
            return None;
        };
        AuthorizedKey::from_blob(algorithm, blob, key_option, provider)
    }

    /// Build an `AuthorizedKey` from a public key blob.
    pub fn from_blob(
        algorithm: PublicKeyAlgorithm<'_>,
        blob: Vec<u8>,
        key_option: Option<AuthorizedKeyOptions>,
        provider: Provider<'_>,
    ) -> (r: Option<Self>)
        ensures
            ({
                let command = match key_option {
                    Some(options) => command_view(options),
                    None => None,
                };
                match r {
                    Some(key) => key_from_blob(algorithm@, blob@, command, provider) == Some(key@),
                    None => key_from_blob(algorithm@, blob@, command, provider) is None,
                }
            }),
    {
        let Ok(Decoded { value: key_type, next }) = <&[u8]>::decode(blob.as_slice()) else {
            return None;
        };

        if !same_bytes(key_type, algorithm.name().as_bytes()) {
            return None;
        }
        let key = match algorithm {
            PublicKeyAlgorithm::EcdsaSha2Nistp256 => {
                let Ok(Decoded { next, .. }) = <&[u8]>::decode(next) else {
                    return None;
                };
                let Ok(Decoded { value, next }) = <&[u8]>::decode(next) else {
                    return None;
                };
                if next.len() != 0 {
                    return None;
                }
                let Ok(key) = provider.0.verifying_key(value, &algorithm) else {
                    return None;
                };
                key
            },
            PublicKeyAlgorithm::Ed25519 => {
                let Ok(Decoded { value, next }) = <&[u8]>::decode(next) else {
                    return None;
                };
                if next.len() != 0 {
                    return None;
                }
                let Ok(key) = provider.0.verifying_key(value, &algorithm) else {
                    return None;
                };
                key
            },
            PublicKeyAlgorithm::Unknown(_) => {
                return None;
            },
        };

        Some(AuthorizedKey { algorithm: algorithm.to_owned(), key, blob, key_option })
    }

    /// Verify a signature over the given message.
    pub fn verify(&self, message: SignatureInput, signature: EncodedSignature) -> (r: Result<
        (),
        ProtoError,
    >)
        ensures
            r == match self@.key.0.spec_verify(message@, signature@) {
                Ok(_) => Ok::<(), ProtoError>(()),
                Err(_) => Err::<(), ProtoError>(ProtoError::InvalidPacket("invalid signature")),
            },
    {
        match self.key.0.verify(message.as_bytes(), signature.as_bytes()) {
            Ok(()) => Ok(()),
            Err(_) => Err(ProtoError::InvalidPacket("invalid signature")),
        }
    }

    /// Check whether the given public key matches this authorized key.
    pub fn matches(&self, public_key: &PublicKey<'_>) -> (r: bool)
        ensures
            r == (self@.algorithm == public_key@.algorithm && self@.blob == public_key@.key_blob),
    {
        self.algorithm.same(&public_key.algorithm) && same_bytes(
            self.blob.as_slice(),
            public_key.key_blob,
        )
    }

    /// Get the public key algorithm for this authorized key.
    pub fn algorithm(&self) -> (r: &PublicKeyAlgorithm<'_>)
        ensures
            r@ == self@.algorithm,
    {
        &self.algorithm
    }

    /// The options of the key.
    pub fn key_option(&self) -> (r: Option<&AuthorizedKeyOptions>)
        ensures
            match r {
                Some(options) => command_view(*options) == self@.command,
                None => self@.command is None,
            },
    {
        match &self.key_option {
            Some(options) => Some(options),
            None => None,
        }
    }
}

} // verus!
