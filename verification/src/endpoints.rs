//! Where the client finds the relay: the HTTP base URL for the directory and
//! the WebSocket base URL for message delivery.

use vstd::prelude::*;
use vstd::string::StringExecFns;
use vstd::string::StrSliceExecFns;
use crate::text::{chars_of, ends_with, has_prefix, has_suffix, starts_with, trim_end_char, trimmed_end_len};

verus! {

broadcast use vstd::string::group_string_axioms;

pub open spec fn http_scheme() -> Seq<char> {
    seq!['h', 't', 't', 'p', ':', '/', '/']
}

pub open spec fn https_scheme() -> Seq<char> {
    seq!['h', 't', 't', 'p', 's', ':', '/', '/']
}

pub open spec fn ws_scheme() -> Seq<char> {
    seq!['w', 's', ':', '/', '/']
}

pub open spec fn wss_scheme() -> Seq<char> {
    seq!['w', 's', 's', ':', '/', '/']
}

/// The path under which the relay serves WebSockets.
pub open spec fn ws_path() -> Seq<char> {
    seq!['/', 'w', 's']
}

/// The relay the client uses when none is named: `http://127.0.0.1:3000`.
pub open spec fn default_server() -> Seq<char> {
    http_scheme() + seq!['1', '2', '7', '.', '0', '.', '0', '.', '1', ':', '3', '0', '0', '0']
}

/// `s` without `suffix` when it ends with it, else `s`.
pub open spec fn without_suffix(s: Seq<char>, suffix: Seq<char>) -> Seq<char> {
    if has_suffix(s, suffix) {
        s.subrange(0, s.len() - suffix.len())
    } else {
        s
    }
}

/// The (HTTP base, WebSocket base) pair that a server argument names, or
/// `None` when its scheme is not one of http, https, ws, wss. Trailing '/'
/// are dropped first; a WebSocket URL may end in the `/ws` path.
pub open spec fn endpoints_for(raw: Seq<char>) -> Option<(Seq<char>, Seq<char>)> {
    let t = trim_end_char(raw, '/');
    if has_prefix(t, http_scheme()) {
        let rest = t.subrange(http_scheme().len() as int, t.len() as int);
        Some((http_scheme() + rest, ws_scheme() + rest))
    } else if has_prefix(t, https_scheme()) {
        let rest = t.subrange(https_scheme().len() as int, t.len() as int);
        Some((https_scheme() + rest, wss_scheme() + rest))
    } else if has_prefix(t, ws_scheme()) {
        let rest = without_suffix(t.subrange(ws_scheme().len() as int, t.len() as int), ws_path());
        Some((http_scheme() + rest, ws_scheme() + rest))
    } else if has_prefix(t, wss_scheme()) {
        let rest = without_suffix(t.subrange(wss_scheme().len() as int, t.len() as int), ws_path());
        Some((https_scheme() + rest, wss_scheme() + rest))
    } else {
        None
    }
}

/// The argument given, or the default relay.
pub open spec fn server_or_default(arg: Option<Seq<char>>) -> Seq<char> {
    match arg {
        Some(s) => s,
        None => default_server(),
    }
}

/// The text of an optional string.
pub open spec fn option_text(arg: Option<String>) -> Option<Seq<char>> {
    match arg {
        Some(s) => Some(s@),
        None => None,
    }
}

/// Base URLs agree: the WebSocket base is the HTTP base with `ws` in place
/// of `http` (and `wss` in place of `https`).
pub open spec fn consistent_bases(http: Seq<char>, ws: Seq<char>) -> bool {
    ||| exists|rest: Seq<char>| http == http_scheme() + rest && ws == ws_scheme() + rest
    ||| exists|rest: Seq<char>| http == https_scheme() + rest && ws == wss_scheme() + rest
}

/// A base URL made of a scheme and the rest of the address splits back into
/// them, and an https base does not read as http.
proof fn lemma_scheme_split(rest: Seq<char>)
    ensures
        has_prefix(http_scheme() + rest, http_scheme()),
        (http_scheme() + rest).subrange(http_scheme().len() as int, (http_scheme() + rest).len() as int)
            == rest,
        !has_prefix(https_scheme() + rest, http_scheme()),
        has_prefix(https_scheme() + rest, https_scheme()),
        (https_scheme() + rest).subrange(https_scheme().len() as int, (https_scheme() + rest).len() as int)
            == rest,
{
    assert((http_scheme() + rest).subrange(0, 7) =~= http_scheme());
    assert((http_scheme() + rest).subrange(7, (http_scheme() + rest).len() as int) =~= rest);
    assert((https_scheme() + rest).subrange(0, 8) =~= https_scheme());
    assert((https_scheme() + rest).subrange(8, (https_scheme() + rest).len() as int) =~= rest);
    assert((https_scheme() + rest).subrange(0, 7)[4] == 's');
}

/// Giving the HTTP base URL that a server argument names back as the server
/// argument names the same two base URLs, whenever that base does not end
/// in '/' (a WebSocket address ending in `//ws` leaves one, which the
/// second reading trims).
pub proof fn lemma_http_base_names_same_endpoints(raw: Seq<char>)
    requires
        endpoints_for(raw) is Some,
        endpoints_for(raw)->Some_0.0.last() != '/',
    ensures
        endpoints_for(endpoints_for(raw)->Some_0.0) == endpoints_for(raw),
{
    let h = endpoints_for(raw)->Some_0.0;
    let t = trim_end_char(raw, '/');
    let rest = if has_prefix(t, http_scheme()) {
        t.subrange(http_scheme().len() as int, t.len() as int)
    } else if has_prefix(t, https_scheme()) {
        t.subrange(https_scheme().len() as int, t.len() as int)
    } else if has_prefix(t, ws_scheme()) {
        without_suffix(t.subrange(ws_scheme().len() as int, t.len() as int), ws_path())
    } else {
        without_suffix(t.subrange(wss_scheme().len() as int, t.len() as int), ws_path())
    };
    lemma_scheme_split(rest);
    assert(h.len() > 0);
    assert(trim_end_char(h, '/') == h);
}

/// A trailing '/' never changes what a server argument names.
pub proof fn lemma_trailing_slash_ignored(s: Seq<char>)
    ensures
        endpoints_for(s.push('/')) == endpoints_for(s),
{
    assert(s.push('/').drop_last() =~= s);
    assert(trim_end_char(s.push('/'), '/') == trim_end_char(s, '/'));
}

/// A WebSocket address that ends in the `/ws` path names the relay at the
/// address without it: `ws://<rest>/ws` gives the bases `http://<rest>` and
/// `ws://<rest>`, and `wss://<rest>/ws` gives `https://<rest>` and
/// `wss://<rest>`.
pub proof fn lemma_ws_path_dropped(rest: Seq<char>)
    ensures
        endpoints_for(ws_scheme() + rest + ws_path()) == Some((http_scheme() + rest, ws_scheme() + rest)),
        endpoints_for(wss_scheme() + rest + ws_path()) == Some((https_scheme() + rest, wss_scheme() + rest)),
{
    let a = ws_scheme() + rest + ws_path();
    assert(a.last() == 's');
    assert(trim_end_char(a, '/') == a);
    assert(a[0] != http_scheme()[0]);
    assert(!has_prefix(a, http_scheme()));
    assert(!has_prefix(a, https_scheme()));
    assert(a.subrange(0, 5) =~= ws_scheme());
    let ra = a.subrange(5, a.len() as int);
    assert(ra =~= rest + ws_path());
    assert(ra.subrange(ra.len() - 3, ra.len() as int) =~= ws_path());
    assert(ra.subrange(0, ra.len() - 3) =~= rest);
    let b = wss_scheme() + rest + ws_path();
    assert(b.last() == 's');
    assert(trim_end_char(b, '/') == b);
    assert(b[0] != http_scheme()[0]);
    assert(!has_prefix(b, http_scheme()));
    assert(!has_prefix(b, https_scheme()));
    assert(b[2] != ws_scheme()[2]);
    assert(!has_prefix(b, ws_scheme()));
    assert(b.subrange(0, 6) =~= wss_scheme());
    let rb = b.subrange(6, b.len() as int);
    assert(rb =~= rest + ws_path());
    assert(rb.subrange(rb.len() - 3, rb.len() as int) =~= ws_path());
    assert(rb.subrange(0, rb.len() - 3) =~= rest);
}

/// Why a server argument was refused.
#[derive(Clone, Copy, Debug, PartialEq, Eq, Structural)]
pub enum EndpointError {
    /// The URL does not start with http://, https://, ws:// or wss://.
    UnsupportedScheme,
}

impl EndpointError {
    /// The text the client prints for the error.
    pub fn message(&self) -> (r: String)
        ensures
            r@ == "server must start with http://, https://, ws://, or wss://"@,
    {
        String::from_str("server must start with http://, https://, ws://, or wss://")
    }
}

#[derive(Clone, Debug)]
pub struct ServerEndpoints {
    pub http_base_url: String,
    websocket_base_url: String,
}

impl View for ServerEndpoints {
    type V = (Seq<char>, Seq<char>);

    closed spec fn view(&self) -> (Seq<char>, Seq<char>) {
        (self.http_base_url@, self.websocket_base_url@)
    }
}

impl ServerEndpoints {
    /// The HTTP base URL, which is the first component of the view (the
    /// field is public too, but verified code outside this module reads it
    /// through here).
    pub fn http_base_url(&self) -> (r: &str)
        ensures
            r@ == self@.0,
    {
        self.http_base_url.as_str()
    }

    /// Builds both base URLs from `base + rest`.
    fn with_rest(http_prefix: &str, ws_prefix: &str, rest: &str) -> (r: Self)
        ensures
            r@ == (http_prefix@ + rest@, ws_prefix@ + rest@),
    {
        let mut http = String::from_str(http_prefix);
        http.append(rest);
        let mut ws = String::from_str(ws_prefix);
        ws.append(rest);
        ServerEndpoints { http_base_url: http, websocket_base_url: ws }
    }

    /// Parses the relay address given on the command line (or the default,
    /// `http://127.0.0.1:3000`, when none is given).
    pub fn from_optional_arg(arg: Option<String>) -> (r: Result<Self, EndpointError>)
        ensures
            match r {
                Ok(e) => endpoints_for(server_or_default(option_text(arg))) == Some(e@),
                Err(_) => endpoints_for(server_or_default(option_text(arg))) is None,
            },
            r matches Ok(e) ==> consistent_bases(e@.0, e@.1),
    {
        proof {
            reveal_strlit("http://127.0.0.1:3000");
            reveal_strlit("http://");
            reveal_strlit("https://");
            reveal_strlit("ws://");
            reveal_strlit("wss://");
            reveal_strlit("/ws");
        }
        assert("http://"@ =~= http_scheme());
        assert("https://"@ =~= https_scheme());
        assert("ws://"@ =~= ws_scheme());
        assert("wss://"@ =~= wss_scheme());
        assert("/ws"@ =~= ws_path());
        assert("http://127.0.0.1:3000"@ =~= default_server());
        let raw = match arg {
            Some(s) => s,
            None => String::from_str("http://127.0.0.1:3000"),
        };
        assert(raw@ == server_or_default(option_text(arg)));
        let raw_str = raw.as_str();
        let chars = chars_of(raw_str);
        let end = trimmed_end_len(&chars, '/');
        let ghost t = trim_end_char(raw@, '/');
        let trimmed: Vec<char> = chars_of(raw_str.substring_char(0, end));
        assert(trimmed@ == t);
        if starts_with(&trimmed, &chars_of("http://")) {
            let rest = raw_str.substring_char(7, end);
            assert(rest@ =~= t.subrange(7, t.len() as int));
            let r = Self::with_rest("http://", "ws://", rest);
            assert(r@.0 == http_scheme() + rest@ && r@.1 == ws_scheme() + rest@);
            assert(endpoints_for(raw@) == Some(r@));
            return Ok(r);
        }
        if starts_with(&trimmed, &chars_of("https://")) {
            let rest = raw_str.substring_char(8, end);
            assert(rest@ =~= t.subrange(8, t.len() as int));
            let r = Self::with_rest("https://", "wss://", rest);
            assert(r@.0 == https_scheme() + rest@ && r@.1 == wss_scheme() + rest@);
            assert(endpoints_for(raw@) == Some(r@));
            return Ok(r);
        }
        if starts_with(&trimmed, &chars_of("ws://")) {
            let rest_all = raw_str.substring_char(5, end);
            assert(rest_all@ =~= t.subrange(5, t.len() as int));
            let rest_chars: Vec<char> = chars_of(rest_all);
            let rest = if ends_with(&rest_chars, &chars_of("/ws")) {
                let r = raw_str.substring_char(5, end - 3);
                assert(r@ =~= rest_all@.subrange(0, rest_all@.len() - 3));
                r
            } else {
                rest_all
            };
            assert(rest@ == without_suffix(t.subrange(5, t.len() as int), ws_path()));
            let r = Self::with_rest("http://", "ws://", rest);
            assert(r@.0 == http_scheme() + rest@ && r@.1 == ws_scheme() + rest@);
            assert(endpoints_for(raw@) == Some(r@));
            return Ok(r);
        }
        if starts_with(&trimmed, &chars_of("wss://")) {
            let rest_all = raw_str.substring_char(6, end);
            assert(rest_all@ =~= t.subrange(6, t.len() as int));
            let rest_chars: Vec<char> = chars_of(rest_all);
            let rest = if ends_with(&rest_chars, &chars_of("/ws")) {
                let r = raw_str.substring_char(6, end - 3);
                assert(r@ =~= rest_all@.subrange(0, rest_all@.len() - 3));
                r
            } else {
                rest_all
            };
            assert(rest@ == without_suffix(t.subrange(6, t.len() as int), ws_path()));
            let r = Self::with_rest("https://", "wss://", rest);
            assert(r@.0 == https_scheme() + rest@ && r@.1 == wss_scheme() + rest@);
            assert(endpoints_for(raw@) == Some(r@));
            return Ok(r);
        }
        Err(EndpointError::UnsupportedScheme)
    }

    /// The directory URL to which registrations are posted.
    pub fn users_url(&self) -> (r: String)
        ensures
            r@ == self@.0 + "/users"@,
    {
        let mut url = self.http_base_url.clone();
        url.append("/users");
        url
    }

    /// The directory URL of the public keys of `username`.
    pub fn public_key_url(&self, username: &str) -> (r: String)
        ensures
            r@ == self@.0 + "/users/"@ + username@ + "/public-key"@,
    {
        let mut url = self.http_base_url.clone();
        url.append("/users/");
        url.append(username);
        url.append("/public-key");
        url
    }

    /// The WebSocket URL on which `username` receives messages.
    pub fn websocket_url(&self, username: &str) -> (r: String)
        ensures
            r@ == self@.1 + ws_path() + seq!['/'] + username@,
    {
        proof {
            reveal_strlit("/ws/");
        }
        let mut url = self.websocket_base_url.clone();
        url.append("/ws/");
        url.append(username);
        url
    }
}

} // verus!
