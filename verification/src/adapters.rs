//! The calls into other crates, each behind a function whose contract says what the
//! rest of the library relies on.

use vstd::prelude::*;

use crate::text;

verus! {

// ---------------------------------------------------------------------------
// Command lines
// ---------------------------------------------------------------------------

/// The words of a command line, or nothing where a quote is not closed.
pub uninterp spec fn shell_line(line: Seq<char>) -> Option<Seq<Seq<char>>>;

/// A line without quotes, escapes and comments, whose only white space is blanks, tabs
/// and newlines.
pub open spec fn plain_line(line: Seq<char>) -> bool {
    forall|i: int|
        0 <= i < line.len() ==> {
            let c = #[trigger] line[i];
            &&& c != '\'' && c != '"' && c != '\\' && c != '#'
            &&& text::is_space(c) ==> c == ' ' || c == '\t' || c == '\n'
        }
}

/// A line that is made of quoted stretches alone: the quote that is still open at its end,
/// and what stands within quotes. Nothing where something stands outside quotes, or a
/// backslash within double ones.
pub open spec fn unquoted(line: Seq<char>) -> Option<(Option<char>, Seq<char>)>
    decreases line.len(),
{
    if line.len() == 0 {
        Some((None, Seq::empty()))
    } else {
        let c = line.last();
        match unquoted(line.drop_last()) {
            Some((Some(quote), word)) => if c == quote {
                Some((None, word))
            } else if c == '\\' && quote == '"' {
                None
            } else {
                Some((Some(quote), word.push(c)))
            },
            Some((None, word)) => if c == '\'' || c == '"' {
                Some((Some(c), word))
            } else {
                None
            },
            None => None,
        }
    }
}

/// A line that is one word in quotes: `word` is what stands within them.
pub open spec fn is_quoted_word(line: Seq<char>, word: Seq<char>) -> bool {
    line.len() > 0 && unquoted(line) == Some((None::<char>, word))
}

/// `shell_words::split` splits a line as a Unix shell does. Its result depends on the line
/// alone; a plain line falls apart at its white space, and quoted stretches that touch are
/// one word.
#[verifier::external_body]
pub(crate) fn shell_split(line: &str) -> (r: Option<Vec<String>>)
    ensures
        match r {
            Some(v) => shell_line(line@) == Some(text::texts(v@)),
            None => shell_line(line@) is None,
        },
        plain_line(line@) ==> r is Some && text::texts(r->0@) == text::words(line@),
        forall|word: Seq<char>| #[trigger]
            is_quoted_word(line@, word) ==> r is Some && text::texts(r->0@) == seq![word],
{
    shell_words::split(line).ok()
}

// ---------------------------------------------------------------------------
// Versions
// ---------------------------------------------------------------------------

/// Whether a text is a semantic version.
pub uninterp spec fn semver_text(version: Seq<char>) -> bool;

/// Whether one semantic version is greater than another.
pub uninterp spec fn semver_greater(left: Seq<char>, right: Seq<char>) -> bool;

/// Why a text is no semantic version.
pub uninterp spec fn semver_complaint(version: Seq<char>) -> Seq<char>;

/// `semver::Version::parse` accepts a text or refuses it, by the text alone; a version that
/// it accepts is written by `to_string` as it was read. What is accepted starts with a
/// digit. The error is the text of the parser's error.
#[verifier::external_body]
pub(crate) fn semver_canonical(version: &str) -> (r: Result<String, String>)
    ensures
        r is Ok == semver_text(version@),
        r is Ok ==> r->Ok_0@ == version@ && version@.len() > 0 && text::is_digit(version@[0]),
        r is Err ==> r->Err_0@ == semver_complaint(version@),
{
    semver::Version::parse(version).map(|v| v.to_string()).map_err(|error| error.to_string())
}

/// The order of `semver::Version` on two versions that it accepts. It is a total order on
/// versions: no version is greater than itself, and of two versions at most one is
/// greater than the other.
#[verifier::external_body]
pub(crate) fn semver_newer(left: &str, right: &str) -> (r: bool)
    requires
        semver_text(left@),
        semver_text(right@),
    ensures
        r == semver_greater(left@, right@),
        left@ == right@ ==> !r,
        r ==> !semver_greater(right@, left@),
{
    match (semver::Version::parse(left), semver::Version::parse(right)) {
        (Ok(left), Ok(right)) => left > right,
        _ => false,
    }
}

// ---------------------------------------------------------------------------
// Bytes
// ---------------------------------------------------------------------------

/// The SHA-256 digest of some bytes.
pub uninterp spec fn sha256_of(bytes: Seq<u8>) -> Seq<u8>;

/// `sha2::Sha256::digest` gives the 32 bytes of the digest.
#[verifier::external_body]
pub(crate) fn sha256(bytes: &[u8]) -> (r: Vec<u8>)
    ensures
        r@ == sha256_of(bytes@),
        r@.len() == 32,
{
    <sha2::Sha256 as sha2::Digest>::digest(bytes).to_vec()
}

/// Bytes as text, with a replacement character for what is not UTF-8.
pub uninterp spec fn lossy(bytes: Seq<u8>) -> Seq<char>;

/// `String::from_utf8_lossy` gives back the text that valid UTF-8 encodes.
#[verifier::external_body]
pub(crate) fn lossy_text(bytes: &[u8]) -> (r: String)
    ensures
        r@ == lossy(bytes@),
        vstd::utf8::valid_utf8(bytes@) ==> r@ == vstd::utf8::decode_utf8(bytes@),
{
    String::from_utf8_lossy(bytes).into_owned()
}

// ---------------------------------------------------------------------------
// URLs
// ---------------------------------------------------------------------------

/// The parts of a URL that the launcher looks at.
#[derive(Debug)]
pub struct UrlParts {
    /// The URL in its normal form.
    pub href: String,
    pub scheme: String,
    pub host: Option<String>,
    /// The port, or the usual one of the scheme.
    pub port: Option<u16>,
    /// The names and values of the query, decoded.
    pub query: Vec<(String, String)>,
    pub fragment: Option<String>,
}

#[verifier::ext_equal]
pub struct UrlView {
    pub href: Seq<char>,
    pub scheme: Seq<char>,
    pub host: Option<Seq<char>>,
    pub port: Option<u16>,
    pub query: Seq<(Seq<char>, Seq<char>)>,
    pub fragment: Option<Seq<char>>,
}

impl View for UrlParts {
    type V = UrlView;

    open spec fn view(&self) -> UrlView {
        UrlView {
            href: self.href@,
            scheme: self.scheme@,
            host: text::opt_text(self.host),
            port: self.port,
            query: self.query@.map_values(|p: (String, String)| (p.0@, p.1@)),
            fragment: text::opt_text(self.fragment),
        }
    }
}

/// The parts of a URL, or why the text is no URL.
pub uninterp spec fn url_of(url: Seq<char>) -> Result<UrlView, Seq<char>>;

/// `url::Url::parse`, with the parts that its getters `as_str`, `scheme`, `host_str`,
/// `port_or_known_default`, `query_pairs` and `fragment` give, or the text of its error. All
/// of them depend on the text alone.
#[verifier::external_body]
pub(crate) fn parse_url(url: &str) -> (r: Result<UrlParts, String>)
    ensures
        match r {
            Ok(parts) => url_of(url@) == Ok::<UrlView, Seq<char>>(parts@),
            Err(e) => url_of(url@) == Err::<UrlView, Seq<char>>(e@),
        },
{
    let url = url::Url::parse(url).map_err(|error| error.to_string())?;
    Ok(UrlParts {
        href: url.as_str().to_string(),
        scheme: url.scheme().to_string(),
        host: url.host_str().map(str::to_string),
        port: url.port_or_known_default(),
        query: url.query_pairs().map(|(k, v)| (k.into_owned(), v.into_owned())).collect(),
        fragment: url.fragment().map(str::to_string),
    })
}

pub open spec fn is_web_scheme(scheme: Seq<char>) -> bool {
    scheme == "http"@ || scheme == "https"@
}

/// The origin of a web address: its scheme and host, and its port where that is not the
/// usual one of the scheme.
pub open spec fn web_origin(url: UrlView) -> Seq<char> {
    let usual = if url.scheme == "http"@ {
        80u16
    } else {
        443u16
    };
    let site = url.scheme + "://"@ + url.host->0;
    if url.port->0 == usual {
        site
    } else {
        site + ":"@ + text::decimal(url.port->0 as nat)
    }
}

/// `url::Url::origin` of a web address, as `ascii_serialization` writes it. Of addresses
/// with other schemes it is not asked: it follows a `blob` address into its path, as deep
/// as that goes. A web address has a host and a port.
#[verifier::external_body]
pub(crate) fn url_origin(url: &str) -> (r: String)
    requires
        url_of(url@) is Ok,
        is_web_scheme(url_of(url@)->Ok_0.scheme),
    ensures
        r@ == web_origin(url_of(url@)->Ok_0),
{
    match url::Url::parse(url) {
        Ok(url) => url.origin().ascii_serialization(),
        Err(_) => String::new(),
    }
}

/// A URL with one more pair in its query.
pub uninterp spec fn url_with(url: Seq<char>, name: Seq<char>, value: Seq<char>) -> Result<
    Seq<char>,
    Seq<char>,
>;

/// `query_pairs_mut().append_pair` on a URL that `url::Url::parse` accepts; the result is
/// the URL's text, or the text of the parser's error. A result longer than the crate's
/// 32-bit positions could make it panic.
#[verifier::external_body]
pub(crate) fn url_with_pair(url: &str, name: &str, value: &str) -> (r: Result<String, String>)
    requires
        url@.len() < 0x1000_0000,
        name@.len() < 0x1_0000,
        value@.len() < 0x0400_0000,
    ensures
        match r {
            Ok(u) => url_with(url@, name@, value@) == Ok::<Seq<char>, Seq<char>>(u@),
            Err(e) => url_with(url@, name@, value@) == Err::<Seq<char>, Seq<char>>(e@),
        },
        r is Ok <==> url_of(url@) is Ok,
        r is Err ==> url_of(url@) == Err::<UrlView, Seq<char>>(r->Err_0@),
{
    let mut url = url::Url::parse(url).map_err(|error| error.to_string())?;
    url.query_pairs_mut().append_pair(name, value);
    Ok(url.as_str().to_string())
}

// ---------------------------------------------------------------------------
// JSON
// ---------------------------------------------------------------------------

/// A JSON value. Numbers are not looked into.
pub enum Json {
    Null,
    Bool(bool),
    Number,
    Text(Seq<char>),
    List(Seq<Json>),
    Object(Seq<(Seq<char>, Json)>),
}

/// `serde_json::Value`, which is looked into only through the functions below.
#[verifier::external_type_specification]
#[verifier::external_body]
pub struct ExJsonValue(serde_json::Value);

/// What a JSON value holds.
pub uninterp spec fn json(v: serde_json::Value) -> Json;

/// What a JSON text holds, or why it is no JSON text.
pub uninterp spec fn json_text(s: Seq<char>) -> Result<Json, Seq<char>>;

/// `serde_json::from_str` into a `serde_json::Value`, or the text of its error. Both
/// depend on the text alone.
#[verifier::external_body]
pub(crate) fn parse_json(s: &str) -> (r: Result<serde_json::Value, String>)
    ensures
        match r {
            Ok(v) => json_text(s@) == Ok::<Json, Seq<char>>(json(v)),
            Err(e) => json_text(s@) == Err::<Json, Seq<char>>(e@),
        },
{
    serde_json::from_str(s).map_err(|error| error.to_string())
}

/// The member of a JSON object with the given name. A parsed object holds a name once.
pub open spec fn json_member(v: Json, key: Seq<char>) -> Option<Json> {
    match v {
        Json::Object(members) => member_in(members, key),
        _ => None,
    }
}

pub open spec fn member_in(members: Seq<(Seq<char>, Json)>, key: Seq<char>) -> Option<Json>
    decreases members.len(),
{
    if members.len() == 0 {
        None
    } else if members[0].0 == key {
        Some(members[0].1)
    } else {
        member_in(members.skip(1), key)
    }
}

/// `serde_json::Value::get` with a name: the member of an object, nothing of any other
/// value.
#[verifier::external_body]
pub(crate) fn json_get<'a>(v: &'a serde_json::Value, key: &str) -> (r: Option<&'a serde_json::Value>)
    ensures
        match r {
            Some(m) => json_member(json(*v), key@) == Some(json(*m)),
            None => json_member(json(*v), key@) is None,
        },
{
    v.get(key)
}

/// `serde_json::Value::as_bool`.
#[verifier::external_body]
pub(crate) fn json_bool(v: &serde_json::Value) -> (r: Option<bool>)
    ensures
        match json(*v) {
            Json::Bool(b) => r == Some(b),
            _ => r is None,
        },
{
    v.as_bool()
}

/// `serde_json::Value::as_str`.
#[verifier::external_body]
pub(crate) fn json_str(v: &serde_json::Value) -> (r: Option<String>)
    ensures
        match json(*v) {
            Json::Text(t) => text::opt_text(r) == Some(t),
            _ => r is None,
        },
{
    v.as_str().map(str::to_string)
}

/// `serde_json::Value::as_array`.
#[verifier::external_body]
pub(crate) fn json_items<'a>(v: &'a serde_json::Value) -> (r: Option<Vec<&'a serde_json::Value>>)
    ensures
        match json(*v) {
            Json::List(items) => r matches Some(list) && list@.len() == items.len() && forall|i: int|
                0 <= i < items.len() ==> json(*#[trigger] list@[i]) == items[i],
            _ => r is None,
        },
{
    v.as_array().map(|items| items.iter().collect())
}

/// `serde_json::Value::as_object`, member by member.
#[verifier::external_body]
pub(crate) fn json_members<'a>(v: &'a serde_json::Value) -> (r: Option<
    Vec<(String, &'a serde_json::Value)>,
>)
    ensures
        match json(*v) {
            Json::Object(members) => r matches Some(list) && list@.len() == members.len()
                && forall|i: int|
                0 <= i < members.len() ==> (#[trigger] list@[i]).0@ == members[i].0 && json(
                    *list@[i].1,
                ) == members[i].1,
            _ => r is None,
        },
{
    v.as_object().map(|members| members.iter().map(|(k, v)| (k.clone(), v)).collect())
}

// ---------------------------------------------------------------------------
// Compression
// ---------------------------------------------------------------------------

/// The zlib stream that `flate2` makes of the data at its fastest level.
pub uninterp spec fn zlib_fast(data: Seq<u8>) -> Seq<u8>;

/// `flate2::write::ZlibEncoder` over a `Vec`, at `flate2::Compression::fast`: `write_all`
/// and `finish`. Writing to a `Vec` does not fail; the stream depends on the data alone.
#[verifier::external_body]
pub(crate) fn zlib(data: &[u8]) -> (r: Vec<u8>)
    ensures
        r@ == zlib_fast(data@),
{
    let mut encoder = flate2::write::ZlibEncoder::new(Vec::new(), flate2::Compression::fast());
    let _ = std::io::Write::write_all(&mut encoder, data);
    encoder.finish().unwrap_or_default()
}

} // verus!
