//! The base URL under which a client reaches this server.
//!
//! A request is taken to have come through zero or more proxies. The resolver
//! looks, in this order, at a URL fixed by the administrator, at the
//! `Forwarded` header, at the `X-Forwarded-*` headers and at `Host`, and takes
//! the first that yields text which parses as an absolute URL.

use crate::text::chars_of;
use crate::text::joined;
use crate::text::ends_with;
use crate::text::first_field;
use crate::text::range_ends_with;
use crate::text::range_equals;
use crate::text::range_starts_with;
use crate::text::scan_forward;
use crate::text::split;
use crate::text::strip_prefix;
use crate::text::trim;
use crate::text::trim_matches;
use crate::text::trim_range;
use crate::text::CharClass;
use axum::http::HeaderMap;
use url::Url;
use vstd::prelude::*;

verus! {

#[verifier::external_type_specification]
#[verifier::external_body]
#[verifier::reject_recursive_types(T)]
pub struct ExHeaderMap<T>(axum::http::HeaderMap<T>);

#[verifier::external_type_specification]
#[verifier::external_body]
pub struct ExHeaderValue(axum::http::HeaderValue);

/// What this library reads of a URL.
pub struct UrlView {
    /// The scheme, in lower case and without the colon.
    pub scheme: Seq<char>,
    /// The whole URL in its normal form.
    pub href: Seq<char>,
}

/// An absolute URL in the normal form that parsing gives it. The only way to
/// make one is [`BaseUrl::parse`].
#[derive(Debug, PartialEq, Eq)]
pub struct BaseUrl {
    scheme: String,
    href: String,
}

impl View for BaseUrl {
    type V = UrlView;

    closed spec fn view(&self) -> UrlView {
        UrlView { scheme: self.scheme@, href: self.href@ }
    }
}

impl Clone for BaseUrl {
    fn clone(&self) -> (copy: Self)
        ensures
            copy@ == self@,
    {
        BaseUrl { scheme: self.scheme.clone(), href: self.href.clone() }
    }
}

/// What `Url::parse` makes of `text`: the URL, or the message of the error.
pub uninterp spec fn url_parse(text: Seq<char>) -> Result<UrlView, Seq<char>>;

/// The text that a header map gives for each name: that of the first value
/// held under the name, where that value is made of visible ASCII only. A name
/// with no value, or whose first value holds another byte, is not in the map.
pub uninterp spec fn header_texts(headers: HeaderMap) -> Map<Seq<char>, Seq<char>>;

/// Calls `Url::parse` of the crate `url` and keeps, of a URL, what
/// `Url::scheme` returns and its serialization, and of an error, its message.
/// The contract only gives the outcome its name, [`url_parse`].
#[verifier::external_body]
fn parse_url(text: &str) -> (parsed: Result<BaseUrl, String>)
    ensures
        match parsed {
            Ok(url) => url_parse(text@) == Ok::<UrlView, Seq<char>>(url@),
            Err(message) => url_parse(text@) == Err::<UrlView, Seq<char>>(message@),
        },
{
    match Url::parse(text) {
        Ok(url) => Ok(BaseUrl { scheme: url.scheme().to_string(), href: url.into() }),
        Err(error) => Err(error.to_string()),
    }
}

/// Calls `HeaderMap::get` of the crate `http` with a name given as text, and
/// `HeaderValue::to_str` on the value found. The contract says that this reads
/// [`header_texts`] at `name`: `get` returns the first value under the name
/// and none for a name that has no value or is no header name, and `to_str`
/// fails unless every byte is visible ASCII.
#[verifier::external_body]
fn header_text(headers: &HeaderMap, name: &str) -> (text: Option<String>)
    ensures
        match text {
            Some(t) => header_texts(*headers).contains_key(name@) && header_texts(*headers)[name@]
                == t@,
            None => !header_texts(*headers).contains_key(name@),
        },
{
    match headers.get(name) {
        Some(value) => match value.to_str() {
            Ok(t) => Some(t.to_string()),
            Err(_) => None,
        },
        None => None,
    }
}

impl BaseUrl {
    /// Parses an absolute URL.
    pub fn parse(text: &str) -> (parsed: Result<BaseUrl, String>)
        ensures
            match parsed {
                Ok(url) => url_parse(text@) == Ok::<UrlView, Seq<char>>(url@),
                Err(message) => url_parse(text@) == Err::<UrlView, Seq<char>>(message@),
            },
    {
        parse_url(text)
    }

    /// The URL as text.
    pub fn as_str(&self) -> (text: &str)
        ensures
            text@ == self@.href,
    {
        self.href.as_str()
    }

    /// The URL's scheme.
    pub fn scheme(&self) -> (text: &str)
        ensures
            text@ == self@.scheme,
    {
        self.scheme.as_str()
    }
}

/// Why no base URL could be given.
#[derive(Debug, Clone, Copy, PartialEq, Eq, Structural)]
pub enum ServerUrlError {
    /// Neither a fixed URL nor any header gave text that parses as a URL.
    UnableToResolve,
}

impl ServerUrlError {
    /// The error in words.
    pub fn message(&self) -> (text: String)
        ensures
            text@ == "Unable to resolve server URL from headers"@,
    {
        String::from_str("Unable to resolve server URL from headers")
    }
}

/// The text under `name`, if the map has any.
pub open spec fn text_of(texts: Map<Seq<char>, Seq<char>>, name: Seq<char>) -> Option<Seq<char>> {
    if texts.contains_key(name) {
        Some(texts[name])
    } else {
        None
    }
}

/// The view of a text that may be absent.
pub open spec fn str_view(text: Option<&str>) -> Option<Seq<char>> {
    match text {
        Some(t) => Some(t@),
        None => None,
    }
}

/// The view of an owned text that may be absent.
pub open spec fn string_view(text: Option<String>) -> Option<Seq<char>> {
    match text {
        Some(t) => Some(t@),
        None => None,
    }
}

/// The value that a `Forwarded` directive gives to `key`, which ends in `=`:
/// what follows the key in the directive without surrounding whitespace,
/// without double quotes at either end.
pub open spec fn directive_value(directive: Seq<char>, key: Seq<char>) -> Option<Seq<char>> {
    match strip_prefix(trim(directive), key) {
        Some(value) => Some(trim_matches(value, CharClass::Only('"'))),
        None => None,
    }
}

/// The value of the last of `directives` that gives one to `key`.
pub open spec fn last_value(directives: Seq<Seq<char>>, key: Seq<char>) -> Option<Seq<char>>
    decreases directives.len(),
{
    if directives.len() == 0 {
        None
    } else {
        match directive_value(directives.last(), key) {
            Some(value) => Some(value),
            None => last_value(directives.drop_last(), key),
        }
    }
}

/// The URL text that a `Forwarded` header value stands for: scheme and host
/// as the `proto` and `host` directives of its first entry give them. There
/// is none unless that entry has both.
pub open spec fn spec_forwarded_candidate(value: Seq<char>) -> Option<Seq<char>> {
    let directives = split(first_field(value, ','), ';');
    match (last_value(directives, "proto="@), last_value(directives, "host="@)) {
        (Some(proto), Some(host)) => Some(proto + "://"@ + host),
        _ => None,
    }
}

/// The first item of a comma-separated list, without surrounding whitespace.
pub open spec fn spec_first_value(list: Seq<char>) -> Seq<char> {
    trim(first_field(list, ','))
}

/// The URL text that the `X-Forwarded-Proto`, `X-Forwarded-Host` and
/// `X-Forwarded-Port` headers stand for. Each counts by its first value. There
/// is none without a host; the scheme is `http` where none is given.
pub open spec fn spec_x_forwarded_candidate(
    proto: Option<Seq<char>>,
    host: Option<Seq<char>>,
    port: Option<Seq<char>>,
) -> Option<Seq<char>> {
    match host {
        None => None,
        Some(host) => {
            let scheme = match proto {
                Some(proto) => spec_first_value(proto),
                None => "http"@,
            };
            let origin = scheme + "://"@ + spec_first_value(host);
            match port {
                Some(port) => Some(origin + ":"@ + spec_first_value(port)),
                None => Some(origin),
            }
        },
    }
}

/// The scheme taken for a request that came straight to `host`: `https` for
/// port 443 or where the first value of `X-Forwarded-Proto` is `https`, else
/// `http`.
pub open spec fn spec_host_scheme(host: Seq<char>, proto: Option<Seq<char>>) -> Seq<char> {
    if ends_with(host, ":443"@) {
        "https"@
    } else if proto is Some && spec_first_value(proto->0) == "https"@ {
        "https"@
    } else {
        "http"@
    }
}

/// The URL text that a `Host` header value stands for.
pub open spec fn spec_host_candidate(host: Seq<char>, proto: Option<Seq<char>>) -> Seq<char> {
    spec_host_scheme(host, proto) + "://"@ + host
}

/// The URL that parsing makes of `text`, if it makes one.
pub open spec fn parsed(text: Seq<char>) -> Option<UrlView> {
    match url_parse(text) {
        Ok(url) => Some(url),
        Err(_) => None,
    }
}

/// The URL that the `Forwarded` header gives.
pub open spec fn from_forwarded(texts: Map<Seq<char>, Seq<char>>) -> Option<UrlView> {
    match text_of(texts, "forwarded"@) {
        Some(value) => match spec_forwarded_candidate(value) {
            Some(candidate) => parsed(candidate),
            None => None,
        },
        None => None,
    }
}

/// The URL that the `X-Forwarded-*` headers give.
pub open spec fn from_x_forwarded(texts: Map<Seq<char>, Seq<char>>) -> Option<UrlView> {
    match spec_x_forwarded_candidate(
        text_of(texts, "x-forwarded-proto"@),
        text_of(texts, "x-forwarded-host"@),
        text_of(texts, "x-forwarded-port"@),
    ) {
        Some(candidate) => parsed(candidate),
        None => None,
    }
}

/// The URL that the `Host` header gives.
pub open spec fn from_host(texts: Map<Seq<char>, Seq<char>>) -> Option<UrlView> {
    match text_of(texts, "host"@) {
        Some(host) => parsed(spec_host_candidate(host, text_of(texts, "x-forwarded-proto"@))),
        None => None,
    }
}

/// The base URL for a request with the header texts `texts`, where `fixed` is
/// the URL that the administrator set, if any: the first that there is of the
/// fixed URL and those of `Forwarded`, `X-Forwarded-*` and `Host`.
pub open spec fn resolved(
    fixed: Option<UrlView>,
    texts: Map<Seq<char>, Seq<char>>,
) -> Result<UrlView, ServerUrlError> {
    if fixed is Some {
        Ok(fixed->0)
    } else if from_forwarded(texts) is Some {
        Ok(from_forwarded(texts)->0)
    } else if from_x_forwarded(texts) is Some {
        Ok(from_x_forwarded(texts)->0)
    } else if from_host(texts) is Some {
        Ok(from_host(texts)->0)
    } else {
        Err(ServerUrlError::UnableToResolve)
    }
}

/// Adding a directive to a list changes the last value of `key` only if the
/// directive gives it one.
proof fn lemma_last_value_push(directives: Seq<Seq<char>>, directive: Seq<char>, key: Seq<char>)
    ensures
        last_value(directives.push(directive), key) == match directive_value(directive, key) {
            Some(value) => Some(value),
            None => last_value(directives, key),
        },
{
    assert(directives.push(directive).drop_last() =~= directives);
}

/// The bounds of the value that the directive `v[from..to]` gives to `key`.
fn directive_value_range(
    v: &Vec<char>,
    from: usize,
    to: usize,
    key: &Vec<char>,
) -> (r: Option<(usize, usize)>)
    requires
        from <= to <= v.len(),
    ensures
        match r {
            Some((a, b)) => a <= b <= v.len() && directive_value(
                v@.subrange(from as int, to as int),
                key@,
            ) == Some(v@.subrange(a as int, b as int)),
            None => directive_value(v@.subrange(from as int, to as int), key@) is None,
        },
{
    let (a, b) = trim_range(v, from, to, CharClass::Whitespace);
    if range_starts_with(v, a, b, key) {
        let start = a + key.len();
        let (x, y) = trim_range(v, start, b, CharClass::Only('"'));
        proof {
            let t = v@.subrange(a as int, b as int);
            assert(t.skip(key@.len() as int) =~= v@.subrange(start as int, b as int));
        }
        Some((x, y))
    } else {
        None
    }
}

/// The bounds of the value that the last directive of the entry `v[from..to]`
/// to name `key` gives it.
fn last_value_range(
    v: &Vec<char>,
    from: usize,
    to: usize,
    key: &Vec<char>,
) -> (r: Option<(usize, usize)>)
    requires
        from <= to <= v.len(),
    ensures
        match r {
            Some((a, b)) => a <= b <= v.len() && last_value(
                split(v@.subrange(from as int, to as int), ';'),
                key@,
            ) == Some(v@.subrange(a as int, b as int)),
            None => last_value(split(v@.subrange(from as int, to as int), ';'), key@) is None,
        },
{
    let ghost entry = v@.subrange(from as int, to as int);
    let ghost mut done: Seq<Seq<char>> = Seq::empty();
    let mut found: Option<(usize, usize)> = None;
    let mut pos = from;
    assert(Seq::<Seq<char>>::empty() + split(entry, ';') =~= split(entry, ';'));
    loop
        invariant_except_break
            split(entry, ';') == done + split(v@.subrange(pos as int, to as int), ';'),
        invariant
            from <= pos <= to <= v.len(),
            match found {
                Some((a, b)) => a <= b <= v.len() && last_value(done, key@) == Some(
                    v@.subrange(a as int, b as int),
                ),
                None => last_value(done, key@) is None,
            },
        ensures
            split(entry, ';') == done,
        decreases to - pos,
    {
        let ghost rest = v@.subrange(pos as int, to as int);
        let stop = scan_forward(v, pos, to, CharClass::Except(';'));
        let ghost directive = v@.subrange(pos as int, stop as int);
        let here = directive_value_range(v, pos, stop, key);
        proof {
            lemma_last_value_push(done, directive, key@);
            assert(rest.take(stop - pos) =~= directive);
            if stop < to {
                assert(rest.skip(stop - pos + 1) =~= v@.subrange(stop + 1, to as int));
                assert(done + (seq![directive] + split(v@.subrange(stop + 1, to as int), ';'))
                    =~= done.push(directive) + split(v@.subrange(stop + 1, to as int), ';'));
            } else {
                assert(rest =~= directive);
                assert(done + seq![directive] =~= done.push(directive));
            }
            done = done.push(directive);
        }
        match here {
            Some(range) => {
                found = Some(range);
            },
            None => {},
        }
        if stop >= to {
            break;
        }
        pos = stop + 1;
    }
    found
}

/// The URL text that the `Forwarded` header value `value` stands for.
pub fn forwarded_candidate(value: &str) -> (candidate: Option<String>)
    ensures
        string_view(candidate) == spec_forwarded_candidate(value@),
{
    let v = chars_of(value);
    let end = scan_forward(&v, 0, v.len(), CharClass::Except(','));
    let proto_key = chars_of("proto=");
    let host_key = chars_of("host=");
    let proto = last_value_range(&v, 0, end, &proto_key);
    let host = last_value_range(&v, 0, end, &host_key);
    proof {
        assert(v@.subrange(0, v.len() as int) =~= v@);
        assert(v@.take(end as int) =~= v@.subrange(0, end as int));
    }
    match (proto, host) {
        (Some((pa, pb)), Some((ha, hb))) => {
            let mut text = String::from_str(value.substring_char(pa, pb));
            text.append("://");
            text.append(value.substring_char(ha, hb));
            Some(text)
        },
        _ => None,
    }
}

/// The first item of the comma-separated list `list`, without surrounding
/// whitespace.
pub fn first_value(list: &str) -> (item: &str)
    ensures
        item@ == spec_first_value(list@),
{
    let v = chars_of(list);
    let end = scan_forward(&v, 0, v.len(), CharClass::Except(','));
    let (a, b) = trim_range(&v, 0, end, CharClass::Whitespace);
    proof {
        assert(v@.subrange(0, v.len() as int) =~= v@);
        assert(v@.take(end as int) =~= v@.subrange(0, end as int));
    }
    list.substring_char(a, b)
}

/// The URL text that the values of `X-Forwarded-Proto`, `X-Forwarded-Host`
/// and `X-Forwarded-Port` stand for.
pub fn x_forwarded_candidate(
    proto: Option<&str>,
    host: Option<&str>,
    port: Option<&str>,
) -> (candidate: Option<String>)
    ensures
        string_view(candidate) == spec_x_forwarded_candidate(
            str_view(proto),
            str_view(host),
            str_view(port),
        ),
{
    let host = match host {
        Some(host) => first_value(host),
        None => {
            return None;
        },
    };
    let scheme = match proto {
        Some(proto) => first_value(proto),
        None => "http",
    };
    let mut text = String::from_str(scheme);
    text.append("://");
    text.append(host);
    match port {
        Some(port) => {
            text.append(":");
            text.append(first_value(port));
        },
        None => {},
    }
    Some(text)
}

/// The URL text that the `Host` header value `host` stands for, where `proto`
/// is the value of `X-Forwarded-Proto`, if the request has one.
pub fn host_candidate(host: &str, proto: Option<&str>) -> (candidate: String)
    ensures
        candidate@ == spec_host_candidate(host@, str_view(proto)),
{
    let v = chars_of(host);
    let port_443 = chars_of(":443");
    let https = chars_of("https");
    assert(v@.subrange(0, v.len() as int) =~= v@);
    let secure = if range_ends_with(&v, 0, v.len(), &port_443) {
        true
    } else {
        match proto {
            Some(proto) => {
                let first = chars_of(first_value(proto));
                assert(first@.subrange(0, first.len() as int) =~= first@);
                range_equals(&first, 0, first.len(), &https)
            },
            None => false,
        }
    };
    let scheme = if secure {
        "https"
    } else {
        "http"
    };
    let mut text = String::from_str(scheme);
    text.append("://");
    text.append(host);
    text
}

/// Resolves the base URL of the server as a client sees it.
#[derive(Debug)]
pub struct ServerUrlResolver {
    fixed_url: Option<BaseUrl>,
}

impl Clone for ServerUrlResolver {
    fn clone(&self) -> (copy: Self)
        ensures
            copy.fixed() == self.fixed(),
    {
        match &self.fixed_url {
            Some(url) => ServerUrlResolver { fixed_url: Some(url.clone()) },
            None => ServerUrlResolver { fixed_url: None },
        }
    }
}

impl ServerUrlResolver {
    /// The fixed URL, if one was set.
    pub closed spec fn fixed(&self) -> Option<UrlView> {
        match self.fixed_url {
            Some(url) => Some(url@),
            None => None,
        }
    }

    /// A resolver that answers `fixed_url` where one is given, and goes by
    /// the request's headers where none is.
    pub fn new(fixed_url: Option<BaseUrl>) -> (resolver: Self)
        ensures
            resolver.fixed() == match fixed_url {
                Some(url) => Some(url@),
                None => None,
            },
    {
        Self { fixed_url }
    }

    /// The base URL for a request with the headers `headers`.
    pub fn resolve(&self, headers: &HeaderMap) -> (url: Result<BaseUrl, ServerUrlError>)
        ensures
            match url {
                Ok(url) => resolved(self.fixed(), header_texts(*headers)) == Ok::<
                    UrlView,
                    ServerUrlError,
                >(url@),
                Err(error) => resolved(self.fixed(), header_texts(*headers)) == Err::<
                    UrlView,
                    ServerUrlError,
                >(error),
            },
    {
        match &self.fixed_url {
            Some(url) => {
                return Ok(url.clone());
            },
            None => {},
        }
        match self.extract_from_forwarded_header(headers) {
            Some(url) => {
                return Ok(url);
            },
            None => {},
        }
        match self.extract_from_x_forwarded_headers(headers) {
            Some(url) => {
                return Ok(url);
            },
            None => {},
        }
        match self.extract_from_host_header(headers) {
            Some(url) => {
                return Ok(url);
            },
            None => {},
        }
        Err(ServerUrlError::UnableToResolve)
    }

    /// The URL that the `Forwarded` header of `headers` gives.
    pub fn extract_from_forwarded_header(&self, headers: &HeaderMap) -> (url: Option<BaseUrl>)
        ensures
            match url {
                Some(url) => from_forwarded(header_texts(*headers)) == Some(url@),
                None => from_forwarded(header_texts(*headers)) is None,
            },
    {
        match header_text(headers, "forwarded") {
            Some(value) => match forwarded_candidate(value.as_str()) {
                Some(candidate) => match parse_url(candidate.as_str()) {
                    Ok(url) => Some(url),
                    Err(_) => None,
                },
                None => None,
            },
            None => None,
        }
    }

    /// The URL that the `X-Forwarded-*` headers of `headers` give.
    pub fn extract_from_x_forwarded_headers(&self, headers: &HeaderMap) -> (url: Option<BaseUrl>)
        ensures
            match url {
                Some(url) => from_x_forwarded(header_texts(*headers)) == Some(url@),
                None => from_x_forwarded(header_texts(*headers)) is None,
            },
    {
        let proto = header_text(headers, "x-forwarded-proto");
        let host = header_text(headers, "x-forwarded-host");
        let port = header_text(headers, "x-forwarded-port");
        match x_forwarded_candidate(as_text(&proto), as_text(&host), as_text(&port)) {
            Some(candidate) => match parse_url(candidate.as_str()) {
                Ok(url) => Some(url),
                Err(_) => None,
            },
            None => None,
        }
    }

    /// The URL that the `Host` header of `headers` gives.
    pub fn extract_from_host_header(&self, headers: &HeaderMap) -> (url: Option<BaseUrl>)
        ensures
            match url {
                Some(url) => from_host(header_texts(*headers)) == Some(url@),
                None => from_host(header_texts(*headers)) is None,
            },
    {
        match header_text(headers, "host") {
            Some(host) => {
                let proto = header_text(headers, "x-forwarded-proto");
                let candidate = host_candidate(host.as_str(), as_text(&proto));
                match parse_url(candidate.as_str()) {
                    Ok(url) => Some(url),
                    Err(_) => None,
                }
            },
            None => None,
        }
    }
}

/// The texts of the headers that tell of proxies.
#[derive(Debug, PartialEq, Eq)]
pub struct ForwardingHeaders {
    pub forwarded: Option<String>,
    pub x_forwarded_proto: Option<String>,
    pub x_forwarded_host: Option<String>,
    pub x_forwarded_port: Option<String>,
}

/// The texts of the headers of `headers` that tell of proxies.
pub fn forwarding_headers(headers: &HeaderMap) -> (texts: ForwardingHeaders)
    ensures
        string_view(texts.forwarded) == text_of(header_texts(*headers), "forwarded"@),
        string_view(texts.x_forwarded_proto) == text_of(
            header_texts(*headers),
            "x-forwarded-proto"@,
        ),
        string_view(texts.x_forwarded_host) == text_of(
            header_texts(*headers),
            "x-forwarded-host"@,
        ),
        string_view(texts.x_forwarded_port) == text_of(
            header_texts(*headers),
            "x-forwarded-port"@,
        ),
{
    ForwardingHeaders {
        forwarded: header_text(headers, "forwarded"),
        x_forwarded_proto: header_text(headers, "x-forwarded-proto"),
        x_forwarded_host: header_text(headers, "x-forwarded-host"),
        x_forwarded_port: header_text(headers, "x-forwarded-port"),
    }
}

/// Borrows the text of `text`, if there is one.
fn as_text(text: &Option<String>) -> (r: Option<&str>)
    ensures
        str_view(r) == string_view(*text),
{
    match text {
        Some(t) => Some(t.as_str()),
        None => None,
    }
}

/// What checking a URL given by the administrator comes to: the URL, if the
/// text parses and its scheme is `http` or `https`, else what is wrong.
pub open spec fn spec_validate_url(text: Seq<char>) -> Result<UrlView, Seq<char>> {
    match url_parse(text) {
        Ok(url) => if url.scheme == "http"@ || url.scheme == "https"@ {
            Ok(url)
        } else {
            Err("URL must use http:// or https:// scheme"@)
        },
        Err(message) => Err("Invalid URL: "@ + message),
    }
}

/// Checks a URL given by the administrator.
pub fn validate_url(text: &str) -> (checked: Result<BaseUrl, String>)
    ensures
        match checked {
            Ok(url) => spec_validate_url(text@) == Ok::<UrlView, Seq<char>>(url@),
            Err(message) => spec_validate_url(text@) == Err::<UrlView, Seq<char>>(message@),
        },
{
    match parse_url(text) {
        Ok(url) => {
            let scheme = chars_of(url.scheme());
            let http = chars_of("http");
            let https = chars_of("https");
            assert(scheme@.subrange(0, scheme.len() as int) =~= scheme@);
            if range_equals(&scheme, 0, scheme.len(), &http) || range_equals(
                &scheme,
                0,
                scheme.len(),
                &https,
            ) {
                Ok(url)
            } else {
                Err(String::from_str("URL must use http:// or https:// scheme"))
            }
        },
        Err(message) => Err(joined("Invalid URL: ", message.as_str())),
    }
}

/// A fixed URL is the answer whatever the headers are.
pub proof fn lemma_fixed_url_wins(
    fixed: UrlView,
    texts: Map<Seq<char>, Seq<char>>,
    others: Map<Seq<char>, Seq<char>>,
)
    ensures
        resolved(Some(fixed), texts) == Ok::<UrlView, ServerUrlError>(fixed),
        resolved(Some(fixed), texts) == resolved(Some(fixed), others),
{
}

/// Without a fixed URL the answer is that of the first of `Forwarded`,
/// `X-Forwarded-*` and `Host` to give a URL, and an error if none does.
pub proof fn lemma_first_source_wins(texts: Map<Seq<char>, Seq<char>>)
    ensures
        from_forwarded(texts) is Some ==> resolved(None, texts) == Ok::<UrlView, ServerUrlError>(
            from_forwarded(texts)->0,
        ),
        from_forwarded(texts) is None && from_x_forwarded(texts) is Some ==> resolved(None, texts)
            == Ok::<UrlView, ServerUrlError>(from_x_forwarded(texts)->0),
        from_forwarded(texts) is None && from_x_forwarded(texts) is None && from_host(texts)
            is Some ==> resolved(None, texts) == Ok::<UrlView, ServerUrlError>(
            from_host(texts)->0,
        ),
        from_forwarded(texts) is None && from_x_forwarded(texts) is None && from_host(texts)
            is None ==> resolved(None, texts) == Err::<UrlView, ServerUrlError>(
            ServerUrlError::UnableToResolve,
        ),
{
}

/// What stands before the first comma of a text that has `first`, which is
/// free of commas, before a comma is `first`.
proof fn lemma_first_field_of_list(first: Seq<char>, rest: Seq<char>)
    requires
        !first.contains(','),
    ensures
        first_field(first + seq![','] + rest, ',') == first,
        first_field(first, ',') == first,
{
    let list = first + seq![','] + rest;
    let class = CharClass::Except(',');
    assert forall|i: int| 0 <= i < first.len() implies class.holds(list[i]) by {
        assert(list[i] == first[i]);
        assert(first.contains(first[i]));
    }
    assert(list[first.len() as int] == ',');
    crate::text::lemma_leading_is(list, class, first.len() as int);
    assert(list.take(first.len() as int) =~= first);
    assert forall|i: int| 0 <= i < first.len() implies class.holds(first[i]) by {
        assert(first.contains(first[i]));
    }
    crate::text::lemma_leading_is(first, class, first.len() as int);
    assert(first.take(first.len() as int) =~= first);
}

/// Of a `Forwarded` header with several entries only the first counts: what
/// follows the first comma changes nothing.
pub proof fn lemma_forwarded_first_entry_only(first: Seq<char>, rest: Seq<char>)
    requires
        !first.contains(','),
    ensures
        spec_forwarded_candidate(first + seq![','] + rest) == spec_forwarded_candidate(first),
{
    lemma_first_field_of_list(first, rest);
}

/// Of a comma-separated list only the first item counts.
pub proof fn lemma_first_value_only(first: Seq<char>, rest: Seq<char>)
    requires
        !first.contains(','),
    ensures
        spec_first_value(first + seq![','] + rest) == trim(first),
{
    lemma_first_field_of_list(first, rest);
}

/// A request that came straight to port 443 is taken to be `https`.
pub proof fn lemma_port_443_is_https(host: Seq<char>, proto: Option<Seq<char>>)
    requires
        ends_with(host, ":443"@),
    ensures
        spec_host_candidate(host, proto) == "https://"@ + host,
{
    reveal_strlit("https");
    reveal_strlit("://");
    reveal_strlit("https://");
    assert("https"@ + "://"@ =~= "https://"@);
}

} // verus!
