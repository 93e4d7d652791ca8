//! The `url` crate's parsing, joining and query building, as the library
//! uses them, with what each call is trusted to do.
use vstd::prelude::*;

use crate::text::{char_index, char_index_of, chars_of, utf8_len, utf8_len_of, utf8_width, utf8_width_of};
use url::{ParseError, Url};

verus! {

#[verifier::external_type_specification]
#[verifier::external_body]
pub struct ExUrl(Url);

#[verifier::external_type_specification]
#[verifier::external_body]
pub struct ExParseError(ParseError);

/// The serialization of a URL, the text that `Url::as_str` returns. A `Url`
/// holds nothing but this text and offsets into it.
pub uninterp spec fn url_text(url: Url) -> Seq<char>;

/// Which `ParseError` the `url` crate reported, one variant for each of its
/// kinds. `Other` stands for a kind that the crate may add later; the
/// version built here has none.
#[derive(Clone, Copy, Debug, PartialEq, Eq, Structural)]
pub enum UrlErrorKind {
    EmptyHost,
    IdnaError,
    InvalidPort,
    InvalidIpv4Address,
    InvalidIpv6Address,
    InvalidDomainCharacter,
    RelativeUrlWithoutBase,
    RelativeUrlWithCannotBeABaseBase,
    SetHostOnCannotBeABaseUrl,
    Overflow,
    Other,
}

/// What `Url::parse` makes of `input`: the serialization of the URL, or the
/// kind of error it reports.
pub uninterp spec fn parsed_url(input: Seq<char>) -> Result<Seq<char>, UrlErrorKind>;

/// What `Url::join` makes of `input` against the URL serialized as `base`:
/// the serialization of the joined URL, or the kind of error it reports.
pub uninterp spec fn joined_url(base: Seq<char>, input: Seq<char>) -> Result<Seq<char>, UrlErrorKind>;

/// The bytes of the UTF-8 encoding of `c`.
pub open spec fn utf8_bytes(c: char) -> Seq<u8> {
    let n = c as u32;
    if n < 0x80 {
        seq![n as u8]
    } else if n < 0x800 {
        seq![(0xC0 + n / 64) as u8, (0x80 + n % 64) as u8]
    } else if n < 0x10000 {
        seq![(0xE0 + n / 4096) as u8, (0x80 + (n / 64) % 64) as u8, (0x80 + n % 64) as u8]
    } else {
        seq![
            (0xF0 + n / 262144) as u8,
            (0x80 + (n / 4096) % 64) as u8,
            (0x80 + (n / 64) % 64) as u8,
            (0x80 + n % 64) as u8,
        ]
    }
}

/// The upper-case hexadecimal digit of `d`, for `d` below 16.
pub open spec fn hex_digit(d: int) -> char {
    if d < 10 {
        (0x30 + d) as char
    } else {
        (0x41 + d - 10) as char
    }
}

/// Each byte written as `%` and two upper-case hexadecimal digits.
pub open spec fn percent_bytes(bytes: Seq<u8>) -> Seq<char>
    decreases bytes.len(),
{
    if bytes.len() == 0 {
        Seq::empty()
    } else {
        percent_bytes(bytes.drop_last()) + seq![
            '%',
            hex_digit(bytes.last() as int / 16),
            hex_digit(bytes.last() as int % 16),
        ]
    }
}

/// The characters the form encoding keeps as they are: ASCII letters and
/// digits, `*`, `-`, `.` and `_`.
pub open spec fn form_unchanged(c: char) -> bool {
    let n = c as u32;
    (0x30 <= n <= 0x39) || (0x41 <= n <= 0x5a) || (0x61 <= n <= 0x7a) || n == 0x2a || n == 0x2d
        || n == 0x2e || n == 0x5f
}

/// What the form encoding (`application/x-www-form-urlencoded`) makes of
/// `c`: itself where it is kept, `+` for a space, and otherwise each byte of
/// its UTF-8 encoding percent-encoded.
pub open spec fn form_char(c: char) -> Seq<char> {
    if form_unchanged(c) {
        seq![c]
    } else if c == ' ' {
        seq!['+']
    } else {
        percent_bytes(utf8_bytes(c))
    }
}

/// What the form encoding makes of `s`.
pub open spec fn form_encoded(s: Seq<char>) -> Seq<char>
    decreases s.len(),
{
    if s.len() == 0 {
        Seq::empty()
    } else {
        form_encoded(s.drop_last()) + form_char(s.last())
    }
}

/// What opens a new pair on a URL whose text in front of the fragment is
/// `pre`: `?` where it has no query, `&` where its query is not empty, and
/// nothing after an empty query (a serialization holds `?` in front of its
/// fragment only where its query starts).
pub open spec fn query_opening(pre: Seq<char>) -> Seq<char> {
    let q = char_index(pre, '?');
    if q < pre.len() {
        if q + 1 < pre.len() {
            seq!['&']
        } else {
            Seq::empty()
        }
    } else {
        seq!['?']
    }
}

/// The serialization after `query_pairs_mut().append_pair(name, value)` on
/// the URL serialized as `url`: the form-encoded `name=value` added at the
/// end of the query, in front of the fragment.
pub open spec fn url_with_pair(url: Seq<char>, name: Seq<char>, value: Seq<char>) -> Seq<char> {
    let pre = before_fragment(url);
    pre + query_opening(pre) + form_encoded(name) + seq!['='] + form_encoded(value) + url.skip(
        pre.len() as int,
    )
}

/// Number of bytes the form encoding (`application/x-www-form-urlencoded`)
/// makes of `c`: ASCII letters, digits, `*`, `-`, `.` and `_` stay, a space
/// becomes `+`, and every other byte becomes `%XX`.
pub open spec fn form_width(c: char) -> nat {
    if form_unchanged(c) || c == ' ' {
        1
    } else {
        3 * utf8_width(c)
    }
}

/// Number of bytes the form encoding makes of `s`.
pub open spec fn form_len(s: Seq<char>) -> nat
    decreases s.len(),
{
    if s.len() == 0 {
        0
    } else {
        form_len(s.drop_last()) + form_width(s.last())
    }
}

/// The part of a serialized URL in front of its fragment: a serialization
/// holds `#` only where its fragment starts.
pub open spec fn before_fragment(url: Seq<char>) -> Seq<char> {
    url.take(char_index(url, '#'))
}

/// Number of bytes the text in front of the fragment has once
/// `name=value` is appended to the query: a `?` opens a query where there
/// is none, a `&` separates the pair from a non-empty query (a
/// serialization holds `?` in front of its fragment only where its query
/// starts).
pub open spec fn length_with_pair(url: Seq<char>, name: Seq<char>, value: Seq<char>) -> nat {
    let pre = before_fragment(url);
    let q = char_index(pre, '?');
    let opening: nat = if q < pre.len() {
        if q + 1 < pre.len() { 1 } else { 0 }
    } else {
        1
    };
    utf8_len(pre) + opening + form_len(name) + 1 + form_len(value)
}

/// `query_pairs_mut().append_pair(name, value)` returns normally on the URL
/// serialized as `url`: it stores the start of a new query, and, where the
/// URL has a fragment, the fragment's new start as `u32` offsets, and panics
/// where one is past `u32::MAX`.
pub open spec fn pair_fits(url: Seq<char>, name: Seq<char>, value: Seq<char>) -> bool {
    let pre = before_fragment(url);
    &&& char_index(pre, '?') < pre.len() || utf8_len(pre) <= u32::MAX
    &&& char_index(url, '#') < url.len() ==> length_with_pair(url, name, value) <= u32::MAX
}

/// The number of bytes the form encoding makes of `c`.
fn form_width_of(c: char) -> (w: u128)
    ensures
        w == form_width(c),
{
    let n = c as u32;
    if (0x30 <= n && n <= 0x39) || (0x41 <= n && n <= 0x5a) || (0x61 <= n && n <= 0x7a) || n
        == 0x2a || n == 0x2d || n == 0x2e || n == 0x5f || n == 0x20 {
        1
    } else {
        3 * utf8_width_of(c)
    }
}

/// The number of bytes the form encoding makes of `s`.
fn form_len_of(s: &str) -> (n: u128)
    ensures
        n == form_len(s@),
        n <= 12 * (usize::MAX as nat),
{
    let cs = chars_of(s);
    let mut n: u128 = 0;
    let mut i: usize = 0;
    while i < cs.len()
        invariant
            cs@ == s@,
            i <= cs@.len(),
            n == form_len(cs@.take(i as int)),
            n <= 12 * i,
            i <= usize::MAX,
        decreases cs@.len() - i,
    {
        assert(cs@.take(i + 1).drop_last() =~= cs@.take(i as int));
        n = n + form_width_of(cs[i]);
        i += 1;
    }
    assert(cs@.take(cs@.len() as int) =~= cs@);
    n
}

/// Decides `pair_fits` for the URL serialized as `url`.
pub(crate) fn pair_fits_check(url: &str, name: &str, value: &str) -> (b: bool)
    ensures
        b == pair_fits(url@, name@, value@),
{
    let cs = chars_of(url);
    let hash = char_index_of(&cs, cs.len(), '#');
    let q = char_index_of(&cs, hash, '?');
    let base = utf8_len_of(&cs, hash);
    proof {
        assert(cs@.take(cs@.len() as int) =~= cs@);
        assert(before_fragment(url@) =~= cs@.take(hash as int));
    }
    let opening: u128 = if q < hash {
        if q + 1 < hash { 1 } else { 0 }
    } else {
        1
    };
    assert(base <= 4 * (usize::MAX as nat));
    let grown = base + opening + form_len_of(name) + 1 + form_len_of(value);
    let start_ok = q < hash || base <= u32::MAX as u128;
    let fragment_ok = hash >= cs.len() || grown <= u32::MAX as u128;
    start_ok && fragment_ok
}

/// What a parse or a join returned: the URL's serialization, or the kind of
/// error.
pub open spec fn url_result(r: Result<Url, UrlErrorKind>) -> Result<Seq<char>, UrlErrorKind> {
    match r {
        Ok(u) => Ok(url_text(u)),
        Err(e) => Err(e),
    }
}

/// Trusted: tells the variants of the `url` crate's `ParseError` apart, one
/// arm each.
#[verifier::external_body]
fn url_error_kind(e: ParseError) -> UrlErrorKind {
    match e {
        ParseError::EmptyHost => UrlErrorKind::EmptyHost,
        ParseError::IdnaError => UrlErrorKind::IdnaError,
        ParseError::InvalidPort => UrlErrorKind::InvalidPort,
        ParseError::InvalidIpv4Address => UrlErrorKind::InvalidIpv4Address,
        ParseError::InvalidIpv6Address => UrlErrorKind::InvalidIpv6Address,
        ParseError::InvalidDomainCharacter => UrlErrorKind::InvalidDomainCharacter,
        ParseError::RelativeUrlWithoutBase => UrlErrorKind::RelativeUrlWithoutBase,
        ParseError::RelativeUrlWithCannotBeABaseBase => UrlErrorKind::RelativeUrlWithCannotBeABaseBase,
        ParseError::SetHostOnCannotBeABaseUrl => UrlErrorKind::SetHostOnCannotBeABaseUrl,
        ParseError::Overflow => UrlErrorKind::Overflow,
        _ => UrlErrorKind::Other,
    }
}

/// Trusted: calls `Url::parse`. What it returns, the URL's serialization or
/// the kind of its error, is `parsed_url` of the input.
#[verifier::external_body]
pub(crate) fn parse_url(input: &str) -> (r: Result<Url, UrlErrorKind>)
    ensures
        url_result(r) == parsed_url(input@),
{
    Url::parse(input).map_err(url_error_kind)
}

/// Trusted: calls `Url::join`, resolving `input` against `base`. What it
/// returns is `joined_url` of `base`'s serialization and the input.
#[verifier::external_body]
pub(crate) fn join_url(base: &Url, input: &str) -> (r: Result<Url, UrlErrorKind>)
    ensures
        url_result(r) == joined_url(url_text(*base), input@),
{
    base.join(input).map_err(url_error_kind)
}

/// Trusted: calls `append_pair` on `query_pairs_mut()`, adding one
/// form-encoded `name=value` pair to the query. The call stores the new
/// query and fragment offsets as `u32` and panics past `u32::MAX`, which
/// `pair_fits` keeps out.
#[verifier::external_body]
pub(crate) fn append_query_pair(url: &mut Url, name: &str, value: &str)
    requires
        pair_fits(url_text(*old(url)), name@, value@),
    ensures
        url_text(*final(url)) == url_with_pair(url_text(*old(url)), name@, value@),
{
    url.query_pairs_mut().append_pair(name, value);
}

/// Trusted: calls `Url::as_str` and copies the text into a `String`.
#[verifier::external_body]
pub(crate) fn url_to_string(url: &Url) -> (r: String)
    ensures
        r@ == url_text(*url),
{
    url.as_str().to_owned()
}

} // verus!
