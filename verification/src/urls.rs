//! Addresses of the service.

use crate::text::{
    all_digits, ascii_lowercase, chars_of, digits_value, eq_ignore_ascii_case, opt, read_number,
    same, split, split_on, views,
};
use vstd::prelude::*;
use vstd::string::*;

verus! {

/// The parts of a parsed URL.
pub struct UrlParts {
    /// The whole URL in its normal form.
    pub text: String,
    pub scheme: String,
    pub username: String,
    pub password: Option<String>,
    pub host: Option<String>,
    /// The port, or the one that the scheme implies.
    pub port: Option<u16>,
    pub path: String,
    pub query: Option<String>,
    pub fragment: Option<String>,
}

pub struct UrlView {
    pub text: Seq<char>,
    pub scheme: Seq<char>,
    pub username: Seq<char>,
    pub password: Option<Seq<char>>,
    pub host: Option<Seq<char>>,
    pub port: Option<u16>,
    pub path: Seq<char>,
    pub query: Option<Seq<char>>,
    pub fragment: Option<Seq<char>>,
}

impl View for UrlParts {
    type V = UrlView;

    open spec fn view(&self) -> UrlView {
        UrlView {
            text: self.text@,
            scheme: self.scheme@,
            username: self.username@,
            password: opt(self.password),
            host: opt(self.host),
            port: self.port,
            path: self.path@,
            query: opt(self.query),
            fragment: opt(self.fragment),
        }
    }
}

/// The view of an optional URL.
pub open spec fn opt_url(u: Option<UrlParts>) -> Option<UrlView> {
    match u {
        Some(p) => Some(p@),
        None => None,
    }
}

/// What `url::Url::parse` makes of a text, by the WHATWG URL standard.
pub uninterp spec fn url_parsed(s: Seq<char>) -> Option<UrlView>;

/// Calls `url::Url::parse` and reads off the parts of the result. Parsing
/// depends on the text alone; its result is named.
#[verifier::external_body]
pub(crate) fn parse_url(raw: &str) -> (r: Option<UrlParts>)
    ensures
        opt_url(r) == url_parsed(raw@),
{
    url::Url::parse(raw).ok().map(|u| UrlParts {
        text: u.as_str().to_owned(),
        scheme: u.scheme().to_owned(),
        username: u.username().to_owned(),
        password: u.password().map(str::to_owned),
        host: u.host_str().map(str::to_owned),
        port: u.port_or_known_default(),
        path: u.path().to_owned(),
        query: u.query().map(str::to_owned),
        fragment: u.fragment().map(str::to_owned),
    })
}

/// What `url::Url::join` makes of a text relative to a base URL.
pub uninterp spec fn url_joined(base: Seq<char>, s: Seq<char>) -> Option<UrlView>;

/// Calls `url::Url::join` on the URL `base` and reads off the parts of the
/// result. The result depends on the two texts alone and is named; it is
/// `None` also where `base` is no URL.
#[verifier::external_body]
pub(crate) fn join_url(base: &str, raw: &str) -> (r: Option<UrlParts>)
    ensures
        opt_url(r) == url_joined(base@, raw@),
{
    url::Url::parse(base).ok().and_then(|b| b.join(raw).ok()).map(|u| UrlParts {
        text: u.as_str().to_owned(),
        scheme: u.scheme().to_owned(),
        username: u.username().to_owned(),
        password: u.password().map(str::to_owned),
        host: u.host_str().map(str::to_owned),
        port: u.port_or_known_default(),
        path: u.path().to_owned(),
        query: u.query().map(str::to_owned),
        fragment: u.fragment().map(str::to_owned),
    })
}

/// A part of a dotted IPv4 address: one to three digits without a leading
/// zero, at most 255.
pub open spec fn is_octet(s: Seq<char>) -> bool {
    &&& 1 <= s.len() <= 3
    &&& all_digits(s)
    &&& s.len() == 1 || s[0] != '0'
    &&& digits_value(s) <= 255
}

/// A dotted IPv4 address of the loopback network 127.0.0.0/8.
pub open spec fn is_ipv4_loopback(host: Seq<char>) -> bool {
    let parts = split_on(host, '.');
    &&& parts.len() == 4
    &&& is_octet(parts[0]) && is_octet(parts[1]) && is_octet(parts[2]) && is_octet(parts[3])
    &&& digits_value(parts[0]) == 127
}

/// A host that is this machine: `localhost` in any case, or an IPv4 loopback
/// address. An IPv6 address stands in brackets in a URL and is not read as an
/// address.
pub open spec fn is_loopback(host: Seq<char>) -> bool {
    ascii_lowercase(host) == ascii_lowercase("localhost"@) || is_ipv4_loopback(host)
}

fn octet(s: &str) -> (r: Option<u64>)
    ensures
        match r {
            Some(n) => is_octet(s@) && n == digits_value(s@),
            None => !is_octet(s@),
        },
{
    let v: Vec<char> = chars_of(s);
    if v.len() == 0 || v.len() > 3 {
        return None;
    }
    if v[0] == '+' {
        proof {
            assert(!crate::text::ascii_digit(s@[0]));
        }
        return None;
    }
    if v.len() > 1 && v[0] == '0' {
        return None;
    }
    proof {
        assert(v@.subrange(0, v@.len() as int) =~= v@);
        if all_digits(s@) {
            small_value(s@);
        }
    }
    match read_number(&v, 0, v.len()) {
        Some(n) => if n <= 255 {
            Some(n)
        } else {
            None
        },
        None => None,
    }
}

/// Three digits stand for less than a thousand.
proof fn small_value(s: Seq<char>)
    requires
        s.len() <= 3,
        all_digits(s),
    ensures
        digits_value(s) < 1000,
{
    reveal_with_fuel(digits_value, 4);
    if s.len() >= 1 {
        assert(crate::text::ascii_digit(s[s.len() - 1]));
    }
    if s.len() >= 2 {
        let t = s.drop_last();
        assert(t.last() == s[s.len() - 2]);
        assert(crate::text::ascii_digit(s[s.len() - 2]));
    }
    if s.len() >= 3 {
        let t = s.drop_last().drop_last();
        assert(t.last() == s[s.len() - 3]);
        assert(crate::text::ascii_digit(s[s.len() - 3]));
    }
}

pub fn loopback(host: &str) -> (r: bool)
    ensures
        r == is_loopback(host@),
{
    if eq_ignore_ascii_case(host, "localhost") {
        return true;
    }
    let parts: Vec<String> = split(host, '.');
    let ghost all = views(parts@);
    if parts.len() != 4 {
        return false;
    }
    proof {
        assert(all[0] == parts@[0]@ && all[1] == parts@[1]@ && all[2] == parts@[2]@ && all[3]
            == parts@[3]@);
    }
    let first: Option<u64> = octet(parts[0].as_str());
    let rest: bool = octet(parts[1].as_str()).is_some() && octet(parts[2].as_str()).is_some()
        && octet(parts[3].as_str()).is_some();
    match first {
        Some(n) => n == 127 && rest,
        None => false,
    }
}

/// A URL over HTTPS, or over HTTP to this machine.
pub open spec fn is_secure(u: UrlView) -> bool {
    u.scheme == "https"@ || (u.scheme == "http"@ && u.host is Some && is_loopback(u.host->0))
}

pub fn secure_or_loopback(url: &UrlParts) -> (r: bool)
    ensures
        r == is_secure(url@),
{
    if same(url.scheme.as_str(), "https") {
        return true;
    }
    if !same(url.scheme.as_str(), "http") {
        return false;
    }
    match &url.host {
        Some(host) => loopback(host.as_str()),
        None => false,
    }
}

/// A URL that names nothing but a server: no user, query or fragment, and no
/// path.
pub open spec fn is_bare(u: UrlView) -> bool {
    &&& u.username.len() == 0
    &&& u.password is None
    &&& u.query is None
    &&& u.fragment is None
    &&& u.path == ""@ || u.path == "/"@
}

pub fn bare(url: &UrlParts) -> (r: bool)
    ensures
        r == is_bare(url@),
{
    url.username.as_str().is_empty() && url.password.is_none() && url.query.is_none()
        && url.fragment.is_none() && (same(url.path.as_str(), "") || same(url.path.as_str(), "/"))
}

fn same_opt(a: &Option<String>, b: &Option<String>) -> (r: bool)
    ensures
        r == (opt(*a) == opt(*b)),
{
    match (a, b) {
        (Some(x), Some(y)) => same(x.as_str(), y.as_str()),
        (None, None) => true,
        _ => false,
    }
}

fn same_port(a: Option<u16>, b: Option<u16>) -> (r: bool)
    ensures
        r == (a == b),
{
    match (a, b) {
        (Some(x), Some(y)) => x == y,
        (None, None) => true,
        _ => false,
    }
}

/// Two URLs of one server and one user.
pub open spec fn is_same_origin(a: UrlView, b: UrlView) -> bool {
    &&& a.username == b.username
    &&& a.password == b.password
    &&& a.scheme == b.scheme
    &&& a.host == b.host
    &&& a.port == b.port
}

pub fn same_origin(a: &UrlParts, b: &UrlParts) -> (r: bool)
    ensures
        r == is_same_origin(a@, b@),
{
    same(a.username.as_str(), b.username.as_str()) && same_opt(&a.password, &b.password) && same(
        a.scheme.as_str(),
        b.scheme.as_str(),
    ) && same_opt(&a.host, &b.host) && same_port(a.port, b.port)
}

/// An address is taken only where nobody can listen in: over HTTPS, or over HTTP
/// to `localhost` or to an address that begins with 127.
pub proof fn plain_addresses_stay_on_this_machine(u: UrlView)
    ensures
        u.scheme == "https"@ ==> is_secure(u),
        is_secure(u) && u.scheme != "https"@ ==> u.scheme == "http"@ && (u.host matches Some(host)
            && (ascii_lowercase(host) == "localhost"@ || digits_value(split_on(host, '.')[0])
            == 127)),
        u.scheme == "http"@ && u.host == Some("localhost"@) ==> is_secure(u),
{
    reveal_strlit("localhost");
    assert(ascii_lowercase("localhost"@) =~= "localhost"@);
}

} // verus!
