//! HTTP headers of the upgrade request: names, values and basic credentials.

use crate::error::{
    all_or_first_error, lemma_all_or_first_error_step, lemma_first_error_stays, result_view,
    ConfigError, ErrorKind, ErrorView,
};
use crate::text::{
    chars_of, find_first_of, first_of, slice_of, string_of, strings_view, trim, trimmed,
};
use vstd::prelude::*;
use vstd::string::StringExecFns;
use vstd::utf8::encode_utf8;

verus! {

/// Whether a header name may hold `c`: a letter, a digit, or one of ``!#$%&'*+-.^_`|~``.
pub open spec fn is_name_char(c: char) -> bool {
    ||| 'a' <= c <= 'z'
    ||| 'A' <= c <= 'Z'
    ||| '0' <= c <= '9'
    ||| c == '!'
    ||| c == '#'
    ||| c == '$'
    ||| c == '%'
    ||| c == '&'
    ||| c == '\''
    ||| c == '*'
    ||| c == '+'
    ||| c == '-'
    ||| c == '.'
    ||| c == '^'
    ||| c == '_'
    ||| c == '`'
    ||| c == '|'
    ||| c == '~'
}

/// `c` in lower case, where it is an ASCII letter.
pub open spec fn lower(c: char) -> char {
    if 'A' <= c <= 'Z' {
        (c as u32 + 32) as char
    } else {
        c
    }
}

/// The longest header name, in characters.
pub const MAX_HEADER_NAME_LEN: usize = 65535;

/// The header name that `s` spells: `s` in lower case, where it holds between one and
/// 65535 characters that a header name may hold.
pub open spec fn header_name_of(s: Seq<char>) -> Option<Seq<char>> {
    if 1 <= s.len() <= MAX_HEADER_NAME_LEN && (forall|i: int|
        0 <= i < s.len() ==> is_name_char(#[trigger] s[i])) {
        Some(Seq::new(s.len(), |i: int| lower(s[i])))
    } else {
        None
    }
}

/// Whether a header value may hold `c`: a tab, or any character from the space on but
/// the delete character.
pub open spec fn is_value_char(c: char) -> bool {
    c == '\t' || (c as u32 >= 32 && c as u32 != 127)
}

/// Whether `s` is a header value.
pub open spec fn is_header_value(s: Seq<char>) -> bool {
    forall|i: int| 0 <= i < s.len() ==> is_value_char(#[trigger] s[i])
}

/// Whether `c` is a tab or a visible ASCII character.
pub open spec fn is_visible_ascii(c: char) -> bool {
    c == '\t' || (32 <= (c as u32) && (c as u32) < 127)
}

/// Whether `s` is a header value that can be written as text.
pub open spec fn is_header_text(s: Seq<char>) -> bool {
    forall|i: int| 0 <= i < s.len() ==> is_visible_ascii(#[trigger] s[i])
}

/// `HeaderName::from_str` of the `http` crate, with `as_str` on what it returns: `None`
/// where the name is refused, else the name in lower case. A name is refused where it is
/// empty, longer than 65535 bytes or holds a byte that the crate's table of header
/// characters maps to zero.
#[verifier::external_body]
fn header_name_text(name: &str) -> (r: Option<String>)
    ensures
        r matches Some(n) ==> header_name_of(name@) == Some(n@),
        r is None ==> header_name_of(name@) is None,
{
    match name.parse::<hyper::http::HeaderName>() {
        Ok(n) => Some(n.as_str().to_owned()),
        Err(_) => None,
    }
}

/// `HeaderValue::from_str` of the `http` crate: whether it takes `value`. It takes every
/// text whose bytes are tabs or at least 32 and not 127.
#[verifier::external_body]
fn header_value_accepts(value: &str) -> (r: bool)
    ensures
        r == is_header_value(value@),
{
    hyper::http::HeaderValue::from_str(value).is_ok()
}

/// What the standard base64 engine of the `base64` crate, with padding, writes for `bytes`.
pub uninterp spec fn base64_standard(bytes: Seq<u8>) -> Seq<char>;

/// Whether `c` is a letter, a digit, `+`, `/` or `=`.
pub open spec fn is_base64_char(c: char) -> bool {
    ('a' <= c <= 'z') || ('A' <= c <= 'Z') || ('0' <= c <= '9') || c == '+' || c == '/' || c
        == '='
}

/// `Engine::encode` of the `base64` crate on its `STANDARD` engine. The contract names
/// the result and says that it is written in the standard alphabet and `=`. The call
/// panics where four bytes for every three of the input overflow `usize`.
#[verifier::external_body]
fn base64_encode(bytes: &[u8]) -> (out: String)
    requires
        bytes@.len() / 3 * 4 + 4 <= usize::MAX,
    ensures
        out@ == base64_standard(bytes@),
        forall|i: int| 0 <= i < out@.len() ==> is_base64_char(#[trigger] out@[i]),
{
    base64::Engine::encode(&base64::engine::general_purpose::STANDARD, bytes)
}

/// The name of an HTTP header, in lower case.
#[derive(Clone, Debug, PartialEq, Eq, Hash)]
pub struct HeaderName {
    name: String,
}

/// The value of an HTTP header.
#[derive(Clone, Debug, PartialEq, Eq, Hash)]
pub struct HeaderValue {
    text: String,
}

impl View for HeaderName {
    type V = Seq<char>;

    closed spec fn view(&self) -> Seq<char> {
        self.name@
    }
}

impl View for HeaderValue {
    type V = Seq<char>;

    closed spec fn view(&self) -> Seq<char> {
        self.text@
    }
}

impl HeaderName {
    /// The name spells itself as a header name.
    pub open spec fn wf(&self) -> bool {
        header_name_of(self@) == Some(self@)
    }

    /// The header name that `name` spells.
    pub fn from_str(name: &str) -> (r: Option<HeaderName>)
        ensures
            match r {
                Some(n) => header_name_of(name@) == Some(n@),
                None => header_name_of(name@) is None,
            },
    {
        match header_name_text(name) {
            Some(name) => Some(HeaderName { name }),
            None => None,
        }
    }

    /// The name, in lower case.
    pub fn as_str(&self) -> (s: &str)
        ensures
            s@ == self@,
    {
        self.name.as_str()
    }
}

impl HeaderValue {
    /// Every character may stand in a header value.
    pub open spec fn wf(&self) -> bool {
        is_header_value(self@)
    }

    /// The header value `value`, where it is one.
    pub fn from_str(value: &str) -> (r: Option<HeaderValue>)
        ensures
            r is Some <==> is_header_value(value@),
            r matches Some(v) ==> v@ == value@ && v.wf(),
    {
        if header_value_accepts(value) {
            Some(HeaderValue { text: value.to_owned() })
        } else {
            None
        }
    }

    /// The value as text, where it holds tabs and visible ASCII characters only.
    pub fn to_str(&self) -> (r: Option<&str>)
        ensures
            r is Some <==> is_header_text(self@),
            r matches Some(s) ==> s@ == self@,
    {
        let chars = chars_of(self.text.as_str());
        let mut i: usize = 0;
        while i < chars.len()
            invariant
                i <= chars.len(),
                chars@ == self@,
                forall|j: int| 0 <= j < i ==> is_visible_ascii(#[trigger] chars@[j]),
            decreases chars.len() - i,
        {
            let c = chars[i];
            if !(c == '\t' || (32 <= c as u32 && (c as u32) < 127)) {
                return None;
            }
            i += 1;
        }
        Some(self.text.as_str())
    }
}

/// The text before the first `:` and the text after it.
pub open spec fn cut_at_colon(s: Seq<char>) -> Option<(Seq<char>, Seq<char>)> {
    let colon = first_of(s, seq![':']);
    if colon < s.len() {
        Some((s.subrange(0, colon), s.subrange(colon + 1, s.len() as int)))
    } else {
        None
    }
}

/// The header that `arg` spells as `name: value`: the name in lower case and the value
/// without the whitespace around it.
///
/// The text is refused where it holds no `:`, where the value holds a control character,
/// and where the name is no header name, in this order.
pub open spec fn header_of_text(arg: Seq<char>) -> Result<(Seq<char>, Seq<char>), ErrorView> {
    match cut_at_colon(arg) {
        None => Err((ErrorKind::HttpHeader, arg)),
        Some((key, value)) => if !is_header_value(trim(value)) {
            Err((ErrorKind::HttpHeaderValue, value))
        } else {
            match header_name_of(key) {
                Some(name) => Ok((name, trim(value))),
                None => Err((ErrorKind::HttpHeaderName, key)),
            }
        },
    }
}

/// A header as views.
pub open spec fn header_result_view(r: Result<(HeaderName, HeaderValue), ConfigError>) -> Result<
    (Seq<char>, Seq<char>),
    ErrorView,
> {
    match r {
        Ok((n, v)) => Ok((n@, v@)),
        Err(e) => Err(e@),
    }
}

/// `chars` up to its first `:`, and `chars` after it.
fn cut_colon(chars: &Vec<char>) -> (r: Option<(Vec<char>, Vec<char>)>)
    ensures
        match r {
            Some(parts) => cut_at_colon(chars@) == Some((parts.0@, parts.1@)),
            None => cut_at_colon(chars@) is None,
        },
{
    let mut set: Vec<char> = Vec::new();
    set.push(':');
    let colon = find_first_of(chars, &set);
    if colon < chars.len() {
        Some((slice_of(chars, 0, colon), slice_of(chars, colon + 1, chars.len())))
    } else {
        None
    }
}

/// Reads a header `name: value`.
pub fn parse_http_headers(arg: &str) -> (res: Result<(HeaderName, HeaderValue), ConfigError>)
    ensures
        header_result_view(res) == header_of_text(arg@),
        res matches Ok(h) ==> h.1.wf(),
{
    let chars = chars_of(arg);
    let (key, value) = match cut_colon(&chars) {
        Some(parts) => parts,
        None => {
            return Err(ConfigError::new(ErrorKind::HttpHeader, arg.to_owned()));
        },
    };
    let value = match HeaderValue::from_str(string_of(&trimmed(&value)).as_str()) {
        Some(v) => v,
        None => {
            return Err(ConfigError::new(ErrorKind::HttpHeaderValue, string_of(&value)));
        },
    };
    match HeaderName::from_str(string_of(&key).as_str()) {
        Some(name) => Ok((name, value)),
        None => Err(ConfigError::new(ErrorKind::HttpHeaderName, string_of(&key))),
    }
}

/// The header value that carries `arg` as basic credentials: `Basic `, then the bytes of
/// `arg` without the whitespace around it, in base64.
pub open spec fn credentials_text(arg: Seq<char>) -> Seq<char> {
    "Basic "@ + base64_standard(encode_utf8(trim(arg)))
}

/// Whether `n` bytes have a base64 text whose length fits `usize`.
pub open spec fn base64_fits(n: nat) -> bool {
    n / 3 * 4 + 4 <= usize::MAX
}

/// Reads credentials `user[:password]` into the value of an `Authorization` header.
///
/// Credentials are refused where their base64 text would be too long to hold.
pub fn parse_http_credentials(arg: &str) -> (res: Result<HeaderValue, ConfigError>)
    ensures
        match res {
            Ok(v) => base64_fits(encode_utf8(trim(arg@)).len()) && v@ == credentials_text(arg@)
                && v.wf(),
            Err(e) => !base64_fits(encode_utf8(trim(arg@)).len()) && e@ == (
                ErrorKind::HttpCredentials,
                arg@,
            ),
        },
{
    let plain = string_of(&trimmed(&chars_of(arg)));
    let bytes = plain.as_str().as_bytes();
    if bytes.len() / 3 > (usize::MAX - 4) / 4 {
        return Err(ConfigError::new(ErrorKind::HttpCredentials, arg.to_owned()));
    }
    let encoded = base64_encode(bytes);
    let mut text: String = "Basic ".to_owned();
    text.append(encoded.as_str());
    proof {
        reveal_strlit("Basic ");
        assert forall|i: int| 0 <= i < text@.len() implies is_value_char(#[trigger] text@[i]) by {
            if i >= 6 {
                assert(text@[i] == encoded@[i - 6]);
                assert(is_base64_char(encoded@[i - 6]));
            }
        }
    }
    match HeaderValue::from_str(text.as_str()) {
        Some(v) => Ok(v),
        None => Err(ConfigError::new(ErrorKind::HttpCredentials, arg.to_owned())),
    }
}

/// Writes a header name.
pub fn serialize_header_name(header: &HeaderName) -> (out: String)
    ensures
        out@ == header@,
{
    header.as_str().to_owned()
}

/// The header name that `s` spells, or the error that carries `s`.
pub open spec fn header_name_of_text(s: Seq<char>) -> Result<Seq<char>, ErrorView> {
    match header_name_of(s) {
        Some(name) => Ok(name),
        None => Err((ErrorKind::HttpHeaderName, s)),
    }
}

/// The header value that `s` is, or the error that carries `s`.
pub open spec fn header_value_of_text(s: Seq<char>) -> Result<Seq<char>, ErrorView> {
    if is_header_value(s) {
        Ok(s)
    } else {
        Err((ErrorKind::HttpHeaderValue, s))
    }
}

/// The text of the header value `v`, or the error that carries `v` where it is no text.
pub open spec fn header_text_of_value(v: Seq<char>) -> Result<Seq<char>, ErrorView> {
    if is_header_text(v) {
        Ok(v)
    } else {
        Err((ErrorKind::HttpHeaderText, v))
    }
}

/// Reads a header name.
pub fn deserialize_header_name(text: &str) -> (res: Result<HeaderName, ConfigError>)
    ensures
        result_view(res) == header_name_of_text(text@),
{
    match HeaderName::from_str(text) {
        Some(name) => Ok(name),
        None => Err(ConfigError::new(ErrorKind::HttpHeaderName, text.to_owned())),
    }
}

/// Writes a header value that may be absent. A value that holds a character that is not
/// visible ASCII cannot be written.
pub fn serialize_header_value(header: &Option<HeaderValue>) -> (res: Result<
    Option<String>,
    ConfigError,
>)
    ensures
        match *header {
            None => res matches Ok(None),
            Some(v) => match header_text_of_value(v@) {
                Ok(text) => res matches Ok(Some(out)) && out@ == text,
                Err(e) => res matches Err(x) && x@ == e,
            },
        },
{
    match header {
        None => Ok(None),
        Some(v) => match v.to_str() {
            Some(text) => Ok(Some(text.to_owned())),
            None => Err(ConfigError::new(ErrorKind::HttpHeaderText, v.text.clone())),
        },
    }
}

/// Reads a header value that may be absent.
pub fn deserialize_header_value(text: Option<&str>) -> (res: Result<
    Option<HeaderValue>,
    ConfigError,
>)
    ensures
        match text {
            None => res matches Ok(None),
            Some(t) => match header_value_of_text(t@) {
                Ok(value) => res matches Ok(Some(v)) && v@ == value && v.wf(),
                Err(e) => res matches Err(x) && x@ == e,
            },
        },
{
    match text {
        None => Ok(None),
        Some(t) => match HeaderValue::from_str(t) {
            Some(v) => Ok(Some(v)),
            None => Err(ConfigError::new(ErrorKind::HttpHeaderValue, t.to_owned())),
        },
    }
}

/// The line that is written for the header `h`: `name: value`.
pub open spec fn line_of_header(h: (Seq<char>, Seq<char>)) -> Result<Seq<char>, ErrorView> {
    match header_text_of_value(h.1) {
        Ok(text) => Ok(h.0 + ": "@ + text),
        Err(e) => Err(e),
    }
}

/// The header that the line `s` spells: the name before the first `:` in lower case, and
/// the value after it, both without the whitespace around them.
///
/// The line is refused where it holds no `:`, where the name is no header name, and
/// where the value holds a control character, in this order.
pub open spec fn header_of_line(s: Seq<char>) -> Result<(Seq<char>, Seq<char>), ErrorView> {
    match cut_at_colon(s) {
        None => Err((ErrorKind::HeaderFormat, s)),
        Some((key, value)) => match header_name_of(trim(key)) {
            None => Err((ErrorKind::HttpHeaderName, trim(key))),
            Some(name) => if is_header_value(trim(value)) {
                Ok((name, trim(value)))
            } else {
                Err((ErrorKind::HttpHeaderValue, trim(value)))
            },
        },
    }
}

/// Headers as pairs of texts.
pub open spec fn headers_view(headers: Seq<(HeaderName, HeaderValue)>) -> Seq<
    (Seq<char>, Seq<char>),
> {
    Seq::new(headers.len(), |i: int| (headers[i].0@, headers[i].1@))
}

/// The lines that are written for `headers`, or the error of the first header that
/// cannot be written.
pub open spec fn lines_of_headers(headers: Seq<(Seq<char>, Seq<char>)>) -> Result<
    Seq<Seq<char>>,
    ErrorView,
> {
    all_or_first_error(Seq::new(headers.len(), |i: int| line_of_header(headers[i])))
}

/// The headers that `lines` spell, or the error of the first line that is refused.
pub open spec fn headers_of_lines(lines: Seq<Seq<char>>) -> Result<
    Seq<(Seq<char>, Seq<char>)>,
    ErrorView,
> {
    all_or_first_error(Seq::new(lines.len(), |i: int| header_of_line(lines[i])))
}

/// Writes headers, one line for each.
pub fn serialize_header_pairs(headers: &Vec<(HeaderName, HeaderValue)>) -> (res: Result<
    Vec<String>,
    ConfigError,
>)
    ensures
        match lines_of_headers(headers_view(headers@)) {
            Ok(lines) => res matches Ok(out) && strings_view(out@) == lines,
            Err(e) => res matches Err(x) && x@ == e,
        },
{
    let mut out: Vec<String> = Vec::new();
    let ghost views = headers_view(headers@);
    let ghost items = Seq::new(views.len(), |i: int| line_of_header(views[i]));
    assert(strings_view(out@) =~= Seq::<Seq<char>>::empty());
    assert(items.take(0).len() == 0);
    let mut i: usize = 0;
    while i < headers.len()
        invariant
            i <= headers.len(),
            views == headers_view(headers@),
            items == Seq::new(views.len(), |i: int| line_of_header(views[i])),
            all_or_first_error(items.take(i as int)) == Ok::<Seq<Seq<char>>, ErrorView>(
                strings_view(out@),
            ),
        decreases headers.len() - i,
    {
        proof {
            lemma_all_or_first_error_step(items, i as int);
        }
        let header = &headers[i];
        match header.1.to_str() {
            None => {
                proof {
                    lemma_first_error_stays(items, i + 1);
                }
                return Err(ConfigError::new(ErrorKind::HttpHeaderText, header.1.text.clone()));
            },
            Some(text) => {
                let mut line: String = header.0.as_str().to_owned();
                line.append(": ");
                line.append(text);
                let ghost before = strings_view(out@);
                let ghost written = line@;
                out.push(line);
                assert(strings_view(out@) =~= before.push(written));
            },
        }
        i += 1;
    }
    assert(items.take(headers.len() as int) == items);
    Ok(out)
}

/// Reads one line of headers.
pub fn parse_header_line(line: &str) -> (res: Result<(HeaderName, HeaderValue), ConfigError>)
    ensures
        header_result_view(res) == header_of_line(line@),
        res matches Ok(h) ==> h.1.wf(),
{
    let chars = chars_of(line);
    let (key, value) = match cut_colon(&chars) {
        Some(parts) => parts,
        None => {
            return Err(ConfigError::new(ErrorKind::HeaderFormat, line.to_owned()));
        },
    };
    let key = string_of(&trimmed(&key));
    let name = match HeaderName::from_str(key.as_str()) {
        Some(name) => name,
        None => {
            return Err(ConfigError::new(ErrorKind::HttpHeaderName, key));
        },
    };
    let value = string_of(&trimmed(&value));
    match HeaderValue::from_str(value.as_str()) {
        Some(v) => Ok((name, v)),
        None => Err(ConfigError::new(ErrorKind::HttpHeaderValue, value)),
    }
}

/// Reads headers, one from each line.
pub fn deserialize_header_pairs(lines: &Vec<String>) -> (res: Result<
    Vec<(HeaderName, HeaderValue)>,
    ConfigError,
>)
    ensures
        match headers_of_lines(strings_view(lines@)) {
            Ok(headers) => res matches Ok(out) && headers_view(out@) == headers,
            Err(e) => res matches Err(x) && x@ == e,
        },
{
    let mut out: Vec<(HeaderName, HeaderValue)> = Vec::new();
    let ghost texts = strings_view(lines@);
    let ghost items = Seq::new(texts.len(), |i: int| header_of_line(texts[i]));
    assert(headers_view(out@) =~= Seq::<(Seq<char>, Seq<char>)>::empty());
    assert(items.take(0).len() == 0);
    let mut i: usize = 0;
    while i < lines.len()
        invariant
            i <= lines.len(),
            texts == strings_view(lines@),
            items == Seq::new(texts.len(), |i: int| header_of_line(texts[i])),
            all_or_first_error(items.take(i as int)) == Ok::<
                Seq<(Seq<char>, Seq<char>)>,
                ErrorView,
            >(headers_view(out@)),
        decreases lines.len() - i,
    {
        proof {
            lemma_all_or_first_error_step(items, i as int);
        }
        match parse_header_line(lines[i].as_str()) {
            Err(e) => {
                proof {
                    lemma_first_error_stays(items, i + 1);
                }
                return Err(e);
            },
            Ok(h) => {
                let ghost before = headers_view(out@);
                let ghost read = (h.0@, h.1@);
                out.push(h);
                assert(headers_view(out@) =~= before.push(read));
            },
        }
        i += 1;
    }
    assert(items.take(lines.len() as int) == items);
    Ok(out)
}

} // verus!
