//! Extra HTTP headers for the channel server, as configured by the user.
use crate::text::ascii_lowercase;
use vstd::prelude::*;

verus! {

/// Whether a character may stand in an HTTP header name (an RFC 9110
/// token character): an ASCII letter or digit, or one of
/// ``!#$%&'*+-.^_`|~``.
pub open spec fn header_token_char(c: char) -> bool {
    ||| ('a' <= c && c <= 'z')
    ||| ('A' <= c && c <= 'Z')
    ||| ('0' <= c && c <= '9')
    ||| c == '!' || c == '#' || c == '$' || c == '%' || c == '&' || c == '\''
    ||| c == '*' || c == '+' || c == '-' || c == '.' || c == '^' || c == '_'
    ||| c == '`' || c == '|' || c == '~'
}

/// Whether `HeaderName::from_bytes` accepts a name: one to 65535 token
/// characters (all ASCII, so as many bytes).
pub open spec fn header_name_ok(name: Seq<char>) -> bool {
    &&& 1 <= name.len() <= 65535
    &&& forall|i: int| 0 <= i < name.len() ==> header_token_char(#[trigger] name[i])
}

/// Parses a header name.
///
/// Trusted: calls `reqwest::header::HeaderName::from_bytes` (the `http`
/// crate's) on the name's UTF-8 bytes and renders the result with
/// `HeaderName::as_str`, or the error with its `Display`. From the `http`
/// source: a name is accepted exactly when it is one to 65535 bytes that
/// its table of token characters maps to a character (so no byte beyond
/// ASCII); the accepted name is its input with ASCII letters lowercased, and
/// the error always reads `invalid HTTP header name`.
#[verifier::external_body]
fn canonical_header_name(name: &str) -> (r: Result<String, String>)
    ensures
        r is Ok <==> header_name_ok(name@),
        r matches Ok(c) ==> c@ == ascii_lowercase(name@),
        r matches Err(e) ==> e@ == "invalid HTTP header name"@,
{
    match reqwest::header::HeaderName::from_bytes(name.as_bytes()) {
        Ok(n) => Ok(n.as_str().to_string()),
        Err(e) => Err(e.to_string()),
    }
}

/// Whether `HeaderValue::from_str` accepts a character: visible ASCII,
/// space, tab, or anything beyond ASCII.
pub open spec fn header_value_char_ok(c: char) -> bool {
    (c == '\t') || (' ' <= c && c != '\u{7f}')
}

/// Whether `HeaderValue::from_str` accepts a value.
pub open spec fn header_value_ok(value: Seq<char>) -> bool {
    forall|i: int| 0 <= i < value.len() ==> header_value_char_ok(#[trigger] value[i])
}

/// Checks a header value.
///
/// Trusted: calls `reqwest::header::HeaderValue::from_str` (the `http`
/// crate's), which from its source accepts exactly the values whose bytes
/// are all tabs or at least a space and not DEL (so every character beyond
/// ASCII), and whose error reads `failed to parse header value`.
#[verifier::external_body]
fn check_header_value(value: &str) -> (r: Result<(), String>)
    ensures
        r is Ok <==> header_value_ok(value@),
        r matches Err(e) ==> e@ == "failed to parse header value"@,
{
    match reqwest::header::HeaderValue::from_str(value) {
        Ok(_) => Ok(()),
        Err(e) => Err(e.to_string()),
    }
}

/// The headers that the control plane sets itself, which configuration
/// cannot override.
pub open spec fn is_reserved_header(canonical: Seq<char>) -> bool {
    canonical == "authorization"@ || canonical == "content-type"@ || canonical == "host"@
}

pub open spec fn invalid_name_message(name: Seq<char>, error: Seq<char>) -> Seq<char> {
    "control_plane.http_headers contains invalid header name `"@ + name + "`: "@ + error
}

pub open spec fn reserved_message(name: Seq<char>) -> Seq<char> {
    "control_plane.http_headers cannot override reserved header `"@ + name + "`"@
}

pub open spec fn invalid_value_message(name: Seq<char>) -> Seq<char> {
    "control_plane.http_headers contains invalid value for `"@ + name + "`: "@
        + "failed to parse header value"@
}

/// The headers built from configured `(name, value)` entries, taken in
/// order, on top of `acc`: the first entry with an invalid name, a reserved
/// name or an invalid value is the error; otherwise each entry sets its
/// canonical name to its value, later entries replacing earlier ones.
pub open spec fn headers_from(
    entries: Seq<(Seq<char>, Seq<char>)>,
    acc: Map<Seq<char>, Seq<char>>,
) -> Result<Map<Seq<char>, Seq<char>>, Seq<char>>
    decreases entries.len(),
{
    if entries.len() == 0 {
        Ok(acc)
    } else {
        let (name, value) = entries[0];
        if !header_name_ok(name) {
            Err(invalid_name_message(name, "invalid HTTP header name"@))
        } else {
            let c = ascii_lowercase(name);
            if is_reserved_header(c) {
                Err(reserved_message(name))
            } else if !header_value_ok(value) {
                Err(invalid_value_message(name))
            } else {
                headers_from(entries.drop_first(), acc.insert(c, value))
            }
        }
    }
}

/// The characters of configured entries.
pub open spec fn entries_view(entries: Seq<(String, String)>) -> Seq<(Seq<char>, Seq<char>)> {
    entries.map_values(|e: (String, String)| (e.0@, e.1@))
}

/// Headers to send to the channel server: canonical names with their
/// values, each name once.
#[derive(Debug)]
pub struct ChannelServerHeaders {
    entries: Vec<(String, String)>,
}

impl View for ChannelServerHeaders {
    type V = Map<Seq<char>, Seq<char>>;

    closed spec fn view(&self) -> Map<Seq<char>, Seq<char>> {
        Map::new(
            |n: Seq<char>| exists|i: int| 0 <= i < self.entries@.len() && #[trigger] self.entries@[i].0@ == n,
            |n: Seq<char>|
                {
                    let i = choose|i: int| 0 <= i < self.entries@.len() && #[trigger] self.entries@[i].0@ == n;
                    self.entries@[i].1@
                },
        )
    }
}

/// No name occurs twice among `entries`.
pub open spec fn distinct_names(entries: Seq<(String, String)>) -> bool {
    forall|i: int, j: int|
        0 <= i < entries.len() && 0 <= j < entries.len() && i != j ==> #[trigger] entries[i].0@
            != #[trigger] entries[j].0@
}

impl ChannelServerHeaders {
    /// Each name is held once.
    #[verifier::type_invariant]
    spec fn wf(self) -> bool {
        distinct_names(self.entries@)
    }

    /// No headers.
    pub fn new() -> (headers: Self)
        ensures
            headers@ == Map::<Seq<char>, Seq<char>>::empty(),
    {
        let headers = ChannelServerHeaders { entries: Vec::new() };
        assert(headers@ =~= Map::<Seq<char>, Seq<char>>::empty());
        headers
    }

    /// Sets `name` to `value`, replacing an earlier value.
    pub fn insert(&mut self, name: String, value: String)
        ensures
            final(self)@ == old(self)@.insert(name@, value@),
    {
        proof {
            use_type_invariant(&*self);
        }
        let ghost before = self.entries@;
        let mut entries: Vec<(String, String)> = Vec::new();
        std::mem::swap(&mut entries, &mut self.entries);
        let mut i: usize = 0;
        while i < entries.len()
            invariant
                i <= entries@.len(),
                entries@ == before,
                before == old(self).entries@,
                distinct_names(before),
                forall|j: int| 0 <= j < i ==> entries@[j].0@ != name@,
            decreases entries.len() - i,
        {
            if entries[i].0 == name {
                let ghost name_v = name@;
                assert(before[i as int].0@ == name_v);
                entries.set(i, (name, value));
                assert forall|k: int| 0 <= k < entries@.len() implies #[trigger] entries@[k].0@
                    == before[k].0@ by {}
                self.entries = entries;
                proof {
                    let n = name_v;
                    assert(self.entries@[i as int].0@ == n);
                    assert forall|k: int| 0 <= k < before.len() && k != i implies #[trigger] self.entries@[k]
                        == before[k] by {}
                    assert forall|m: Seq<char>| #[trigger] self@.contains_key(m) == old(self)@.insert(
                        n,
                        value@,
                    ).contains_key(m) by {
                        if self@.contains_key(m) {
                            let k = choose|k: int| 0 <= k < self.entries@.len() && #[trigger] self.entries@[k].0@ == m;
                            assert(before[k].0@ == m);
                        }
                        if old(self)@.contains_key(m) {
                            let k = choose|k: int| 0 <= k < before.len() && #[trigger] before[k].0@ == m;
                            assert(self.entries@[k].0@ == m);
                        }
                    }
                    assert forall|m: Seq<char>| #[trigger] self@.contains_key(m) implies self@[m]
                        == old(self)@.insert(n, value@)[m] by {
                        let k = choose|k: int| 0 <= k < self.entries@.len() && #[trigger] self.entries@[k].0@ == m;
                        assert(self@[m] == self.entries@[k].1@);
                        if m == n {
                            assert(k == i);
                        } else {
                            let k2 = choose|k2: int| 0 <= k2 < before.len() && #[trigger] before[k2].0@ == m;
                            assert(k2 == k);
                            assert(old(self)@[m] == before[k].1@);
                        }
                    }
                    assert(self@ =~= old(self)@.insert(name_v, value@));
                }
                return;
            }
            i += 1;
        }
        let ghost name_v = name@;
        entries.push((name, value));
        assert(distinct_names(entries@)) by {
            assert forall|a: int, b: int|
                0 <= a < entries@.len() && 0 <= b < entries@.len() && a != b implies #[trigger] entries@[a].0@
                != #[trigger] entries@[b].0@ by {
                if a < before.len() && b < before.len() {
                    assert(before[a].0@ != before[b].0@);
                }
            }
        }
        self.entries = entries;
        proof {
            assert forall|m: Seq<char>| #[trigger] self@.contains_key(m) == old(self)@.insert(
                name_v,
                value@,
            ).contains_key(m) by {
                if self@.contains_key(m) {
                    let k = choose|k: int| 0 <= k < self.entries@.len() && #[trigger] self.entries@[k].0@ == m;
                    if k < before.len() {
                        assert(before[k].0@ == m);
                    }
                }
                if old(self)@.contains_key(m) {
                    let k = choose|k: int| 0 <= k < before.len() && #[trigger] before[k].0@ == m;
                    assert(self.entries@[k].0@ == m);
                }
                if m == name_v {
                    assert(self.entries@[before.len() as int].0@ == m);
                }
            }
            assert forall|m: Seq<char>| #[trigger] self@.contains_key(m) implies self@[m]
                == old(self)@.insert(name_v, value@)[m] by {
                let k = choose|k: int| 0 <= k < self.entries@.len() && #[trigger] self.entries@[k].0@ == m;
                assert(self@[m] == self.entries@[k].1@);
                if m == name_v {
                    assert(k == before.len());
                } else {
                    assert(k < before.len());
                    let k2 = choose|k2: int| 0 <= k2 < before.len() && #[trigger] before[k2].0@ == m;
                    assert(k2 == k);
                }
            }
            assert(self@ =~= old(self)@.insert(name_v, value@));
        }
    }

    /// The value for canonical name `name`, if set.
    pub fn get(&self, name: &str) -> (value: Option<&String>)
        ensures
            match value {
                Some(v) => self@.contains_key(name@) && self@[name@] == v@,
                None => !self@.contains_key(name@),
            },
    {
        proof {
            use_type_invariant(self);
        }
        let mut i: usize = 0;
        let wanted = name.to_string();
        while i < self.entries.len()
            invariant
                i <= self.entries@.len(),
                wanted@ == name@,
                distinct_names(self.entries@),
                forall|j: int| 0 <= j < i ==> self.entries@[j].0@ != name@,
            decreases self.entries.len() - i,
        {
            if self.entries[i].0 == wanted {
                proof {
                    assert(self.entries@[i as int].0@ == name@);
                    assert(self@.contains_key(name@));
                    let k = choose|k: int| 0 <= k < self.entries@.len() && #[trigger] self.entries@[k].0@ == name@;
                    assert(k == i);
                }
                return Some(&self.entries[i].1);
            }
            i += 1;
        }
        None
    }

    /// The `(canonical name, value)` pairs, each name once.
    pub fn entries(&self) -> (entries: &Vec<(String, String)>)
        ensures
            forall|i: int|
                0 <= i < entries@.len() ==> self@.contains_key(#[trigger] entries@[i].0@)
                    && self@[entries@[i].0@] == entries@[i].1@,
            forall|n: Seq<char>|
                #[trigger] self@.contains_key(n) ==> exists|i: int|
                    0 <= i < entries@.len() && #[trigger] entries@[i].0@ == n,
    {
        proof {
            use_type_invariant(self);
            assert forall|i: int| 0 <= i < self.entries@.len() implies self@.contains_key(
                #[trigger] self.entries@[i].0@,
            ) && self@[self.entries@[i].0@] == self.entries@[i].1@ by {
                let n = self.entries@[i].0@;
                assert(self@.contains_key(n));
                let k = choose|k: int| 0 <= k < self.entries@.len() && #[trigger] self.entries@[k].0@ == n;
                assert(k == i);
            }
        }
        &self.entries
    }
}

/// The headers for configured `(name, value)` entries, taken in the order
/// given (see [`headers_from`]); none configured gives no headers.
pub fn build_channel_server_http_headers(http_headers: Option<Vec<(String, String)>>) -> (r: Result<
    ChannelServerHeaders,
    String,
>)
    ensures
        match http_headers {
            None => r matches Ok(h) && h@ == Map::<Seq<char>, Seq<char>>::empty(),
            Some(entries) => match (r, headers_from(entries_view(entries@), Map::empty())) {
                (Ok(h), Ok(m)) => h@ == m,
                (Err(e), Err(m)) => e@ == m,
                _ => false,
            },
        },
{
    let mut headers = ChannelServerHeaders::new();
    let entries = match http_headers {
        None => return Ok(headers),
        Some(entries) => entries,
    };
    let ghost all = entries_view(entries@);
    let mut i: usize = 0;
    assert(all.skip(0) =~= all);
    while i < entries.len()
        invariant
            i <= entries@.len(),
            all == entries_view(entries@),
            http_headers == Some(entries),
            headers_from(all, Map::empty()) == headers_from(all.skip(i as int), headers@),
        decreases entries.len() - i,
    {
        let name = &entries[i].0;
        let value = &entries[i].1;
        let ghost rest = all.skip(i as int);
        assert(rest[0] == (name@, value@));
        assert(rest.drop_first() =~= all.skip(i + 1));
        match canonical_header_name(name.as_str()) {
            Err(e) => {
                let mut message = "control_plane.http_headers contains invalid header name `".to_string();
                message.append(name.as_str());
                message.append("`: ");
                message.append(e.as_str());
                return Err(message);
            },
            Ok(canonical) => {
                if canonical == "authorization".to_string() || canonical == "content-type".to_string()
                    || canonical == "host".to_string() {
                    let mut message = "control_plane.http_headers cannot override reserved header `".to_string();
                    message.append(name.as_str());
                    message.append("`");
                    return Err(message);
                }
                match check_header_value(value.as_str()) {
                    Err(e) => {
                        let mut message = "control_plane.http_headers contains invalid value for `".to_string();
                        message.append(name.as_str());
                        message.append("`: ");
                        message.append(e.as_str());
                        return Err(message);
                    },
                    Ok(()) => {
                        headers.insert(canonical, value.clone());
                    },
                }
            },
        }
        i += 1;
    }
    assert(all.skip(i as int) =~= Seq::<(Seq<char>, Seq<char>)>::empty());
    Ok(headers)
}

} // verus!
