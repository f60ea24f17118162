//! The channel server's endpoints: its base URL joined with an API path,
//! and the websocket URL the relay subscribes on.
use crate::relay::websocket_scheme;
use vstd::prelude::*;

verus! {

/// Outside type: a parsed URL.
#[verifier::external_type_specification]
#[verifier::external_body]
pub struct ExUrl(url::Url);

/// What `Url::parse` makes of `input`: the URL's serialization, or the
/// error's text.
pub uninterp spec fn url_parse_outcome(input: Seq<char>) -> Result<Seq<char>, Seq<char>>;

/// What `Url::join` makes of `input` against the URL serialized as `base`:
/// the joined URL's serialization, or the error's text.
pub uninterp spec fn url_join_outcome(base: Seq<char>, input: Seq<char>) -> Result<Seq<char>, Seq<char>>;

/// The scheme of the URL serialized as `serialization`: what comes before
/// the first `:`.
pub open spec fn url_scheme_of(serialization: Seq<char>) -> Seq<char>
    decreases serialization.len(),
{
    if serialization.len() == 0 || serialization[0] == ':' {
        seq![]
    } else {
        seq![serialization[0]] + url_scheme_of(serialization.drop_first())
    }
}

/// What `Url::set_scheme` makes of the URL serialized as `serialization`:
/// the new serialization, or `None` when the change is refused and the URL
/// stays as it was.
pub uninterp spec fn url_with_scheme(serialization: Seq<char>, scheme: Seq<char>) -> Option<Seq<char>>;

/// A URL of the channel server, with its serialization.
pub struct ServerUrl {
    url: url::Url,
    serialization: Ghost<Seq<char>>,
}

impl View for ServerUrl {
    type V = Seq<char>;

    /// The URL's serialization (`Url::as_str`).
    closed spec fn view(&self) -> Seq<char> {
        self.serialization@
    }
}

/// Parses a URL.
///
/// Trusted: calls `url::Url::parse`; an accepted URL is carried with its
/// serialization, an error is rendered with its `Display`.
#[verifier::external_body]
fn parse_url(input: &str) -> (r: Result<ServerUrl, String>)
    ensures
        match r {
            Ok(u) => url_parse_outcome(input@) == Ok::<Seq<char>, Seq<char>>(u@),
            Err(e) => url_parse_outcome(input@) == Err::<Seq<char>, Seq<char>>(e@),
        },
{
    match url::Url::parse(input) {
        Ok(url) => Ok(ServerUrl { url, serialization: Ghost(Seq::empty()) }),
        Err(e) => Err(e.to_string()),
    }
}

/// Joins `input` onto a URL.
///
/// Trusted: calls `url::Url::join`; the joined URL is carried with its
/// serialization, an error is rendered with its `Display`.
#[verifier::external_body]
fn join_url(base: &ServerUrl, input: &str) -> (r: Result<ServerUrl, String>)
    ensures
        match r {
            Ok(u) => url_join_outcome(base@, input@) == Ok::<Seq<char>, Seq<char>>(u@),
            Err(e) => url_join_outcome(base@, input@) == Err::<Seq<char>, Seq<char>>(e@),
        },
{
    match base.url.join(input) {
        Ok(url) => Ok(ServerUrl { url, serialization: Ghost(Seq::empty()) }),
        Err(e) => Err(e.to_string()),
    }
}

/// The URL's scheme.
///
/// Trusted: calls `url::Url::scheme`, which the url crate documents as the
/// lowercased scheme without the `:`; a URL's serialization starts with
/// that scheme and the `:` (a scheme holds no `:`), so it is what comes
/// before the first `:` there.
#[verifier::external_body]
fn url_scheme(u: &ServerUrl) -> (scheme: String)
    ensures
        scheme@ == url_scheme_of(u@),
{
    u.url.scheme().to_string()
}

/// Changes the URL's scheme, when the url crate allows the change.
///
/// Trusted: calls `url::Url::set_scheme`, which leaves the URL unchanged
/// when it refuses.
#[verifier::external_body]
fn set_url_scheme(u: &mut ServerUrl, scheme: &str)
    ensures
        final(u)@ == match url_with_scheme(old(u)@, scheme@) {
            Some(s) => s,
            None => old(u)@,
        },
{
    let _ = u.url.set_scheme(scheme);
}

/// The URL's serialization.
///
/// Trusted: calls `url::Url::as_str`, which the url crate documents as the
/// URL's serialization.
#[verifier::external_body]
fn url_as_string(u: &ServerUrl) -> (s: String)
    ensures
        s@ == u@,
{
    u.url.as_str().to_string()
}

impl ServerUrl {
    /// The URL's serialization.
    pub fn serialization(&self) -> (s: String)
        ensures
            s@ == self@,
    {
        url_as_string(self)
    }

    /// The parsed URL held here, whose serialization is `self@`.
    pub closed spec fn parsed_url(self) -> url::Url {
        self.url
    }

    /// The parsed URL, for the HTTP and websocket clients: the one held
    /// here.
    pub fn into_url(self) -> (url: url::Url)
        ensures
            url == self.parsed_url(),
    {
        self.url
    }
}

/// The endpoint `path` of the server at `base_url`: `base_url` parsed, then
/// `path` joined onto it; either failure is the error, naming the input.
pub fn channel_server_endpoint(base_url: &str, path: &str) -> (r: Result<ServerUrl, String>)
    ensures
        match url_parse_outcome(base_url@) {
            Err(e) => r matches Err(m) && m@ == "invalid server URL `"@ + base_url@ + "`: "@ + e,
            Ok(base) => match url_join_outcome(base, path@) {
                Ok(u) => r matches Ok(url) && url@ == u,
                Err(e) => r matches Err(m) && m@ == "invalid endpoint path `"@ + path@ + "`: "@ + e,
            },
        },
{
    let base = match parse_url(base_url) {
        Ok(base) => base,
        Err(e) => {
            let mut m = "invalid server URL `".to_string();
            m.append(base_url);
            m.append("`: ");
            m.append(e.as_str());
            return Err(m);
        },
    };
    match join_url(&base, path) {
        Ok(u) => Ok(u),
        Err(e) => {
            let mut m = "invalid endpoint path `".to_string();
            m.append(path);
            m.append("`: ");
            m.append(e.as_str());
            Err(m)
        },
    }
}

/// The websocket URL a scheme turns into: `http` into `ws`, `https` into
/// `wss`; `ws` and `wss` stay.
pub open spec fn websocket_scheme_for(scheme: Seq<char>) -> Option<Option<Seq<char>>> {
    if scheme == "http"@ {
        Some(Some("ws"@))
    } else if scheme == "https"@ {
        Some(Some("wss"@))
    } else if scheme == "ws"@ || scheme == "wss"@ {
        Some(None)
    } else {
        None
    }
}

/// The relay's websocket URL for the server at `base_url`: its
/// `/v1/subscribe` endpoint with `http` turned into `ws` and `https` into
/// `wss`; any other scheme than those and `ws`/`wss` is the error.
pub fn channel_server_websocket_url(base_url: &str) -> (r: Result<ServerUrl, String>)
    ensures
        match url_parse_outcome(base_url@) {
            Err(e) => r matches Err(m) && m@ == "invalid server URL `"@ + base_url@ + "`: "@ + e,
            Ok(base) => match url_join_outcome(base, "/v1/subscribe"@) {
                Err(e) => r matches Err(m) && m@ == "invalid endpoint path `"@ + "/v1/subscribe"@
                    + "`: "@ + e,
                Ok(u) => match websocket_scheme_for(url_scheme_of(u)) {
                    None => r matches Err(m) && m@ == "unsupported server URL scheme `"@
                        + url_scheme_of(u) + "`"@,
                    Some(None) => r matches Ok(url) && url@ == u,
                    Some(Some(s)) => r matches Ok(url) && url@ == match url_with_scheme(u, s) {
                        Some(t) => t,
                        None => u,
                    },
                },
            },
        },
{
    let mut url = channel_server_endpoint(base_url, "/v1/subscribe")?;
    let scheme = url_scheme(&url);
    match websocket_scheme(scheme.as_str()) {
        Ok(Some(s)) => {
            set_url_scheme(&mut url, s.as_str());
            Ok(url)
        },
        Ok(None) => Ok(url),
        Err(e) => Err(e),
    }
}

/// Whether an HTTP status code reports success: `200` to `299`.
pub open spec fn status_succeeded(code: u16) -> bool {
    200 <= code < 300
}

/// The error for a channel list request that the server answered with
/// status `code` (shown as `status`); none when it succeeded.
pub fn channel_list_status_error(code: u16, status: &str) -> (r: Option<String>)
    ensures
        status_succeeded(code) <==> r is None,
        r matches Some(m) ==> m@ == "channel list request failed: HTTP "@ + status@,
{
    if 200 <= code && code < 300 {
        None
    } else {
        let mut m = "channel list request failed: HTTP ".to_string();
        m.append(status);
        Some(m)
    }
}

/// The error for a request to create `channel` that the server answered
/// with status `code` (shown as `status`); none when it succeeded.
pub fn channel_create_status_error(channel: &str, code: u16, status: &str) -> (r: Option<String>)
    ensures
        status_succeeded(code) <==> r is None,
        r matches Some(m) ==> m@ == "channel create request failed for `"@ + channel@ + "`: HTTP "@
            + status@,
{
    if 200 <= code && code < 300 {
        None
    } else {
        let mut m = "channel create request failed for `".to_string();
        m.append(channel);
        m.append("`: HTTP ");
        m.append(status);
        Some(m)
    }
}

} // verus!
