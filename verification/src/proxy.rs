use vstd::prelude::*;
use crate::paths::Platform;
use crate::text::{
    first_at, first_index_of, has_sub, has_substring, lines_of, opt_str_view, opt_string_view,
    split_lines, trim_spaces, trimmed, last_token, last_token_of, find_char_from,
};

verus! {

/// A detected proxy endpoint: a host (which for the Windows registry entry
/// may itself carry a port suffix) and, when reported separately, a port.
/// The scheme is always plain http. The value is rebuilt on every detection
/// and never cached or persisted.
pub struct ProxyEndpoint {
    pub host: String,
    pub port: Option<String>,
}

impl ProxyEndpoint {
    /// The URL handed to the extractor for this endpoint.
    pub open spec fn url_spec(&self) -> Seq<char> {
        match self.port {
            Some(p) => "http://"@ + self.host@ + ":"@ + p@,
            None => "http://"@ + self.host@,
        }
    }

    /// Writes the endpoint as the URL handed to the extractor.
    pub fn to_url(&self) -> (r: String)
        ensures
            r@ == self.url_spec(),
    {
        match &self.port {
            Some(p) => "http://".to_owned().concat(self.host.as_str()).concat(":").concat(
                p.as_str(),
            ),
            None => "http://".to_owned().concat(self.host.as_str()),
        }
    }
}

/// The piece of a line between its first and second colon (or its end):
/// where the system utility prints `key : value`, this is the value.
pub open spec fn second_piece(s: Seq<char>) -> Option<Seq<char>> {
    match first_index_of(s, ':') {
        Some(i) => {
            let rest = s.subrange(i + 1, s.len() as int);
            match first_index_of(rest, ':') {
                Some(j) => Some(rest.subrange(0, j)),
                None => Some(rest),
            }
        },
        None => None,
    }
}

/// The views of a line list.
pub open spec fn line_views(ls: Seq<String>) -> Seq<Seq<char>> {
    ls.map_values(|l: String| l@)
}

/// A line of the system utility's report that names the proxy host.
pub open spec fn is_scutil_proxy_line(l: Seq<char>) -> bool {
    has_sub(l, "HTTPProxy :"@) || has_sub(l, "HTTPSProxy :"@)
}

/// A line of the system utility's report that names the proxy port.
pub open spec fn is_scutil_port_line(l: Seq<char>) -> bool {
    has_sub(l, "HTTPPort :"@) || has_sub(l, "HTTPSPort :"@)
}

/// The proxy host: the trimmed value of the first host line whose value is
/// not empty. A host line with an empty value is passed over, not an error.
pub open spec fn scutil_host(ls: Seq<Seq<char>>) -> Option<Seq<char>>
    decreases ls.len(),
{
    if ls.len() == 0 {
        None
    } else if is_scutil_proxy_line(ls[0]) && second_piece(ls[0]) is Some && trimmed(
        second_piece(ls[0])->Some_0,
    ).len() > 0 {
        Some(trimmed(second_piece(ls[0])->Some_0))
    } else {
        scutil_host(ls.drop_first())
    }
}

/// The proxy port: the trimmed value of the first port line that has one.
pub open spec fn scutil_port(ls: Seq<Seq<char>>) -> Option<Seq<char>>
    decreases ls.len(),
{
    if ls.len() == 0 {
        None
    } else if is_scutil_port_line(ls[0]) && second_piece(ls[0]) is Some {
        Some(trimmed(second_piece(ls[0])->Some_0))
    } else {
        scutil_port(ls.drop_first())
    }
}

/// Whether the system utility reports an HTTP or HTTPS proxy as enabled.
pub open spec fn scutil_enabled(out: Seq<char>) -> bool {
    has_sub(out, "HTTPEnable : 1"@) || has_sub(out, "HTTPSEnable : 1"@)
}

/// What the system utility's report yields: a host and port exactly when a
/// proxy is enabled and both are present and well-formed; anything partial
/// or malformed counts as no proxy, never as an error.
pub open spec fn scutil_endpoint(out: Seq<char>) -> Option<(Seq<char>, Seq<char>)> {
    if scutil_enabled(out) {
        match scutil_host(lines_of(out)) {
            Some(h) => match scutil_port(lines_of(out)) {
                Some(p) => Some((h, p)),
                None => None,
            },
            None => None,
        }
    } else {
        None
    }
}

/// What the registry query's report yields: the last whitespace-separated
/// token of the first line naming the proxy-server value, unless the token
/// is empty or the bare type tag of an empty entry.
pub open spec fn reg_server(ls: Seq<Seq<char>>) -> Option<Seq<char>>
    decreases ls.len(),
{
    if ls.len() == 0 {
        None
    } else if has_sub(ls[0], "ProxyServer"@) {
        match last_token(ls[0]) {
            Some(t) => if t.len() > 0 && t != "REG_SZ"@ {
                Some(t)
            } else {
                None
            },
            None => None,
        }
    } else {
        reg_server(ls.drop_first())
    }
}

/// The registry report's endpoint, line by line.
pub open spec fn reg_endpoint(out: Seq<char>) -> Option<Seq<char>> {
    reg_server(lines_of(out))
}

/// A found first occurrence pins `first_index_of` down.
proof fn lemma_first_index(s: Seq<char>, c: char, i: int)
    requires
        first_at(s, c, i),
    ensures
        first_index_of(s, c) == Some(i),
{
    let k = choose|k: int| first_at(s, c, k);
    crate::text::lemma_first_at_unique(s, c, i, k);
}

/// The trimmed `key : value` value of a line, when the line has a colon.
fn trimmed_second_piece(line: &String) -> (r: Option<String>)
    ensures
        r is Some <==> second_piece(line@) is Some,
        r matches Some(t) ==> Some(t@) == (match second_piece(line@) {
            Some(p) => Some(trimmed(p)),
            None => None,
        }),
{
    let s = line.as_str();
    let n = s.unicode_len();
    match find_char_from(s, ':', 0) {
        Some(i) => {
            proof {
                lemma_first_index(s@, ':', i as int);
            }
            let ghost rest = s@.subrange(i + 1int, n as int);
            let piece_end: usize = match find_char_from(s, ':', i + 1) {
                Some(j) => {
                    proof {
                        assert(first_at(rest, ':', j - i - 1)) by {
                            assert(rest[j - i - 1] == s@[j as int]);
                            assert(forall|k: int|
                                0 <= k < j - i - 1 ==> rest[k] == s@[i + 1 + k] && s@[i + 1 + k]
                                    != ':');
                        }
                        lemma_first_index(rest, ':', j - i - 1);
                        assert(rest.subrange(0, j - i - 1) =~= s@.subrange(i + 1int, j as int));
                    }
                    j
                },
                None => {
                    proof {
                        assert(forall|k: int| !first_at(rest, ':', k)) by {
                            assert(forall|k: int|
                                0 <= k < rest.len() ==> rest[k] == s@[i + 1 + k] && s@[i + 1 + k]
                                    != ':');
                        }
                        assert(rest.subrange(0, rest.len() as int) =~= rest);
                    }
                    n
                },
            };
            let piece = s.substring_char(i + 1, piece_end);
            Some(trim_spaces(piece))
        },
        None => {
            proof {
                assert(forall|k: int| !first_at(s@, ':', k));
            }
            None
        },
    }
}

/// Scans the report's lines for the proxy host.
fn scutil_find_host(lines: &Vec<String>) -> (r: Option<String>)
    ensures
        r is Some <==> scutil_host(line_views(lines@)) is Some,
        r matches Some(h) ==> Some(h@) == scutil_host(line_views(lines@)),
{
    let ghost v = line_views(lines@);
    let mut li: usize = 0;
    proof {
        assert(v.skip(0) =~= v);
    }
    while li < lines.len()
        invariant
            v == line_views(lines@),
            li <= lines@.len(),
            v.len() == lines@.len(),
            scutil_host(v) == scutil_host(v.skip(li as int)),
        decreases lines@.len() - li,
    {
        let line = &lines[li];
        proof {
            assert(v.skip(li as int)[0] == v[li as int]);
            assert(v[li as int] == line@);
        }
        let is_proxy = has_substring(line.as_str(), "HTTPProxy :") || has_substring(
            line.as_str(),
            "HTTPSProxy :",
        );
        if is_proxy {
            match trimmed_second_piece(line) {
                Some(t) => {
                    if t.as_str().unicode_len() > 0 {
                        return Some(t);
                    }
                },
                None => {},
            }
        }
        proof {
            assert(v.skip(li as int).drop_first() =~= v.skip(li + 1int));
        }
        li += 1;
    }
    None
}

/// Scans the report's lines for the proxy port.
fn scutil_find_port(lines: &Vec<String>) -> (r: Option<String>)
    ensures
        r is Some <==> scutil_port(line_views(lines@)) is Some,
        r matches Some(p) ==> Some(p@) == scutil_port(line_views(lines@)),
{
    let ghost v = line_views(lines@);
    let mut li: usize = 0;
    proof {
        assert(v.skip(0) =~= v);
    }
    while li < lines.len()
        invariant
            v == line_views(lines@),
            li <= lines@.len(),
            v.len() == lines@.len(),
            scutil_port(v) == scutil_port(v.skip(li as int)),
        decreases lines@.len() - li,
    {
        let line = &lines[li];
        proof {
            assert(v.skip(li as int)[0] == v[li as int]);
            assert(v[li as int] == line@);
        }
        let is_port = has_substring(line.as_str(), "HTTPPort :") || has_substring(
            line.as_str(),
            "HTTPSPort :",
        );
        if is_port {
            match trimmed_second_piece(line) {
                Some(t) => {
                    return Some(t);
                },
                None => {},
            }
        }
        proof {
            assert(v.skip(li as int).drop_first() =~= v.skip(li + 1int));
        }
        li += 1;
    }
    None
}

/// Parses the system utility's proxy report. A proxy is reported exactly
/// when an enable flag is set and both a non-empty host value and a port
/// line are present; the endpoint then carries the host and the port.
pub fn parse_scutil_output(out: &str) -> (r: Option<ProxyEndpoint>)
    ensures
        r is Some <==> scutil_endpoint(out@) is Some,
        r matches Some(ep) ==> {
            &&& scutil_endpoint(out@) matches Some(hp)
            &&& ep.host@ == hp.0
            &&& ep.port matches Some(p)
            &&& p@ == hp.1
        },
{
    let enabled = has_substring(out, "HTTPEnable : 1") || has_substring(out, "HTTPSEnable : 1");
    if !enabled {
        return None;
    }
    let lines = split_lines(out);
    proof {
        assert(line_views(lines@) =~= lines_of(out@));
    }
    let host = match scutil_find_host(&lines) {
        Some(h) => h,
        None => {
            return None;
        },
    };
    match scutil_find_port(&lines) {
        Some(p) => Some(ProxyEndpoint { host, port: Some(p) }),
        None => None,
    }
}

/// Parses the registry query's report into a proxy endpoint; the registry
/// value may already carry its own port, so none is added.
pub fn parse_reg_output(out: &str) -> (r: Option<ProxyEndpoint>)
    ensures
        r is Some <==> reg_endpoint(out@) is Some,
        r matches Some(ep) ==> Some(ep.host@) == reg_endpoint(out@) && ep.port is None,
{
    let lines = split_lines(out);
    proof {
        assert(line_views(lines@) =~= lines_of(out@));
    }
    let ghost v = line_views(lines@);
    let mut li: usize = 0;
    proof {
        assert(v.skip(0) =~= v);
    }
    while li < lines.len()
        invariant
            v == line_views(lines@),
            v == lines_of(out@),
            li <= lines@.len(),
            v.len() == lines@.len(),
            reg_server(v) == reg_server(v.skip(li as int)),
        decreases lines@.len() - li,
    {
        let line = &lines[li];
        proof {
            assert(v.skip(li as int)[0] == v[li as int]);
            assert(v[li as int] == line@);
        }
        if has_substring(line.as_str(), "ProxyServer") {
            match last_token_of(line.as_str()) {
                Some(t) => {
                    let reg_sz = "REG_SZ".to_owned();
                    if t.as_str().unicode_len() > 0 && !(t == reg_sz) {
                        return Some(ProxyEndpoint { host: t, port: None });
                    }
                    return None;
                },
                None => {
                    return None;
                },
            }
        }
        proof {
            assert(v.skip(li as int).drop_first() =~= v.skip(li + 1int));
        }
        li += 1;
    }
    None
}

/// The URL the platform's native proxy store yields, given the report of its
/// query utility (absent where the utility could not be run).
pub open spec fn native_proxy_url(platform: Platform, native_output: Option<Seq<char>>) -> Option<
    Seq<char>,
> {
    match platform {
        Platform::MacOs => match native_output {
            Some(o) => match scutil_endpoint(o) {
                Some(hp) => Some("http://"@ + hp.0 + ":"@ + hp.1),
                None => None,
            },
            None => None,
        },
        Platform::Windows => match native_output {
            Some(o) => match reg_endpoint(o) {
                Some(h) => Some("http://"@ + h),
                None => None,
            },
            None => None,
        },
        Platform::Linux => None,
    }
}

/// Proxy detection in strict priority order, first match wins: the native
/// store, then `HTTP_PROXY`, then `HTTPS_PROXY`, then none.
pub open spec fn resolved_proxy(
    platform: Platform,
    native_output: Option<Seq<char>>,
    http_proxy: Option<Seq<char>>,
    https_proxy: Option<Seq<char>>,
) -> Option<Seq<char>> {
    match native_proxy_url(platform, native_output) {
        Some(u) => Some(u),
        None => match http_proxy {
            Some(u) => Some(u),
            None => https_proxy,
        },
    }
}

/// Detects the proxy to use, in strict priority order: the platform's native
/// proxy store (its query report is handed in by the caller), then the
/// `HTTP_PROXY` environment value, then `HTTPS_PROXY`, then none. A partial
/// or malformed native entry counts as absent, so the environment values
/// still apply behind it.
pub fn resolve_proxy(
    platform: Platform,
    native_output: Option<&str>,
    http_proxy: Option<String>,
    https_proxy: Option<String>,
) -> (r: Option<String>)
    ensures
        r is Some <==> resolved_proxy(
            platform,
            opt_str_view(native_output),
            opt_string_view(http_proxy),
            opt_string_view(https_proxy),
        ) is Some,
        r matches Some(u) ==> Some(u@) == resolved_proxy(
            platform,
            opt_str_view(native_output),
            opt_string_view(http_proxy),
            opt_string_view(https_proxy),
        ),
{
    let native: Option<ProxyEndpoint> = match platform {
        Platform::MacOs => match native_output {
            Some(o) => parse_scutil_output(o),
            None => None,
        },
        Platform::Windows => match native_output {
            Some(o) => parse_reg_output(o),
            None => None,
        },
        Platform::Linux => None,
    };
    match native {
        Some(ep) => Some(ep.to_url()),
        None => match http_proxy {
            Some(u) => Some(u),
            None => https_proxy,
        },
    }
}

} // verus!
