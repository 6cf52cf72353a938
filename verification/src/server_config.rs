//! How the server is configured from its environment: TLS, port, and the
//! address to show for phones on the local network.
use vstd::prelude::*;
use crate::numbers::{int_to_string, parse_u16_spec, parse_u16, signed_decimal};
use crate::text::{
    chars_of, chars_eq, concat3, is_blank, owned, starts_with, starts_with_chars, string_of, trim,
    trim_chars,
};

verus! {

/// The scheme that the server speaks.
pub fn server_scheme(use_tls: bool) -> (scheme: &'static str)
    ensures
        scheme@ == (if use_tls { "https"@ } else { "http"@ }),
{
    if use_tls {
        "https"
    } else {
        "http"
    }
}

/// `s` without leading and trailing '/'.
pub open spec fn trim_slashes(s: Seq<char>) -> Seq<char>
    decreases s.len(),
{
    if s.len() > 0 && s[0] == '/' {
        trim_slashes(s.drop_first())
    } else if s.len() > 0 && s.last() == '/' {
        trim_slashes(s.drop_last())
    } else {
        s
    }
}

/// `s` without a leading "https://", else without a leading "http://".
pub open spec fn strip_scheme(s: Seq<char>) -> Seq<char> {
    if starts_with(s, "https://"@) {
        s.subrange(8, s.len() as int)
    } else if starts_with(s, "http://"@) {
        s.subrange(7, s.len() as int)
    } else {
        s
    }
}

/// The host named by an override of the LAN address: trimmed, without a
/// scheme and without slashes around it; none when nothing is left.
pub open spec fn sanitized_host(raw: Seq<char>) -> Option<Seq<char>> {
    let t = trim(raw);
    if t.len() == 0 {
        None
    } else {
        let h = trim_slashes(strip_scheme(t));
        if h.len() == 0 {
            None
        } else {
            Some(h)
        }
    }
}

/// Text with its slashes trimmed starts and ends with something else.
proof fn lemma_trim_slashes_ends(s: Seq<char>)
    ensures
        trim_slashes(s).len() > 0 ==> trim_slashes(s)[0] != '/' && trim_slashes(s).last() != '/',
    decreases s.len(),
{
    if s.len() > 0 && s[0] == '/' {
        lemma_trim_slashes_ends(s.drop_first());
    } else if s.len() > 0 && s.last() == '/' {
        lemma_trim_slashes_ends(s.drop_last());
    }
}

/// A host taken from the LAN override is never empty and has no slash at
/// either end.
pub proof fn lemma_sanitized_host_shape(raw: Seq<char>)
    ensures
        sanitized_host(raw) matches Some(h) ==> h.len() > 0 && h[0] != '/' && h.last() != '/',
{
    lemma_trim_slashes_ends(strip_scheme(trim(raw)));
}

/// The characters of `cs` from `from` on.
fn suffix_from(cs: &Vec<char>, from: usize) -> (r: Vec<char>)
    requires
        from <= cs.len(),
    ensures
        r@ == cs@.subrange(from as int, cs.len() as int),
{
    let mut out: Vec<char> = Vec::new();
    let mut i = from;
    while i < cs.len()
        invariant
            from <= i <= cs.len(),
            out@ == cs@.subrange(from as int, i as int),
        decreases cs.len() - i,
    {
        out.push(cs[i]);
        proof {
            assert(cs@.subrange(from as int, i + 1) =~= cs@.subrange(from as int, i as int).push(cs@[i as int]));
        }
        i = i + 1;
    }
    out
}

proof fn lemma_trim_slashes_range(s: Seq<char>, i: int, j: int)
    requires
        0 <= i <= j <= s.len(),
        forall|k: int| 0 <= k < i ==> s[k] == '/',
        forall|k: int| j <= k < s.len() ==> s[k] == '/',
        i < j ==> s[i] != '/' && s[j - 1] != '/',
    ensures
        trim_slashes(s) == s.subrange(i, j),
    decreases s.len(),
{
    if s.len() > 0 && s[0] == '/' {
        let t = s.drop_first();
        if i > 0 {
            assert forall|k: int| 0 <= k < i - 1 implies t[k] == '/' by {
                assert(t[k] == s[k + 1]);
            }
            assert forall|k: int| j - 1 <= k < t.len() implies t[k] == '/' by {
                assert(t[k] == s[k + 1]);
            }
            lemma_trim_slashes_range(t, i - 1, j - 1);
            assert(t.subrange(i - 1, j - 1) =~= s.subrange(i, j));
        } else {
            // i == 0 and s[0] == '/', so j == 0: everything is a slash.
            assert(j == 0);
            assert forall|k: int| 0 <= k < t.len() implies t[k] == '/' by {
                assert(t[k] == s[k + 1]);
            }
            lemma_trim_slashes_range(t, 0, 0);
            assert(t.subrange(0, 0) =~= s.subrange(0, 0));
        }
    } else if s.len() > 0 && s.last() == '/' {
        let t = s.drop_last();
        assert(j < s.len());
        assert forall|k: int| 0 <= k < i implies t[k] == '/' by {
            assert(t[k] == s[k]);
        }
        assert forall|k: int| j <= k < t.len() implies t[k] == '/' by {
            assert(t[k] == s[k]);
        }
        if i < j {
            assert(t[i] == s[i]);
            assert(t[j - 1] == s[j - 1]);
        }
        lemma_trim_slashes_range(t, i, j);
        assert(t.subrange(i, j) =~= s.subrange(i, j));
    } else {
        if s.len() > 0 {
            assert(i == 0) by {
                if i > 0 {
                    assert(s[0] == '/');
                }
            }
            assert(j == s.len()) by {
                if j < s.len() {
                    assert(s[s.len() - 1] == '/');
                }
            }
        }
        assert(s.subrange(i, j) =~= s);
    }
}

/// The characters of `cs` without leading and trailing '/'.
fn trim_slash_chars(cs: &Vec<char>) -> (r: Vec<char>)
    ensures
        r@ == trim_slashes(cs@),
{
    let n = cs.len();
    let mut i: usize = 0;
    while i < n && cs[i] == '/'
        invariant
            0 <= i <= n,
            n == cs.len(),
            forall|k: int| 0 <= k < i ==> cs@[k] == '/',
        decreases n - i,
    {
        i = i + 1;
    }
    let mut j: usize = n;
    while j > i && cs[j - 1] == '/'
        invariant
            i <= j <= n,
            n == cs.len(),
            forall|k: int| j <= k < n ==> cs@[k] == '/',
        decreases j,
    {
        j = j - 1;
    }
    let mut out: Vec<char> = Vec::new();
    let mut k: usize = i;
    while k < j
        invariant
            i <= k <= j,
            j <= n,
            n == cs.len(),
            out@ == cs@.subrange(i as int, k as int),
        decreases j - k,
    {
        out.push(cs[k]);
        proof {
            assert(cs@.subrange(i as int, k + 1) =~= cs@.subrange(i as int, k as int).push(cs@[k as int]));
        }
        k = k + 1;
    }
    proof {
        lemma_trim_slashes_range(cs@, i as int, j as int);
    }
    out
}

/// Reads an override of the LAN address shown for phones.
pub fn sanitize_host(raw: &str) -> (r: Option<String>)
    ensures
        match sanitized_host(raw@) {
            Some(h) => r is Some && r->0@ == h,
            None => r is None,
        },
{
    let cs = chars_of(raw);
    let t = trim_chars(&cs);
    if t.len() == 0 {
        return None;
    }
    let https = chars_of("https://");
    let http = chars_of("http://");
    proof {
        reveal_strlit("https://");
        reveal_strlit("http://");
    }
    let rest = if starts_with_chars(&t, &https) {
        suffix_from(&t, 8)
    } else if starts_with_chars(&t, &http) {
        suffix_from(&t, 7)
    } else {
        suffix_from(&t, 0)
    };
    assert(t@.subrange(0, t@.len() as int) =~= t@);
    let h = trim_slash_chars(&rest);
    if h.len() == 0 {
        None
    } else {
        Some(string_of(&h))
    }
}

/// `c.to_ascii_lowercase()`.
pub open spec fn ascii_lower(c: char) -> char {
    if 'A' <= c && c <= 'Z' {
        ((c as int) + 32) as char
    } else {
        c
    }
}

/// `s.to_ascii_lowercase()`.
pub open spec fn ascii_lowercase(s: Seq<char>) -> Seq<char> {
    Seq::new(s.len(), |i: int| ascii_lower(s[i]))
}

/// `s.to_ascii_lowercase()` on characters.
fn ascii_lowercase_chars(cs: &Vec<char>) -> (r: Vec<char>)
    ensures
        r@ == ascii_lowercase(cs@),
{
    let mut out: Vec<char> = Vec::new();
    let mut i: usize = 0;
    while i < cs.len()
        invariant
            0 <= i <= cs.len(),
            out@ == ascii_lowercase(cs@.subrange(0, i as int)),
        decreases cs.len() - i,
    {
        let c = cs[i];
        let l = if 'A' <= c && c <= 'Z' {
            ((c as u8) + 32) as char
        } else {
            c
        };
        out.push(l);
        proof {
            assert(ascii_lowercase(cs@.subrange(0, i + 1)) =~= ascii_lowercase(cs@.subrange(0, i as int)).push(
                ascii_lower(c),
            ));
        }
        i = i + 1;
    }
    assert(cs@.subrange(0, cs.len() as int) =~= cs@);
    out
}

/// What the TLS switch of the environment says: TLS on unless it is set
/// to an off word; `warn` when it is set to an unknown word (TLS stays on).
#[derive(Clone, Debug, PartialEq)]
pub struct TlsChoice {
    pub use_tls: bool,
    pub warn: bool,
}

/// The words that switch TLS off.
pub open spec fn is_off_word(w: Seq<char>) -> bool {
    w == "0"@ || w == "false"@ || w == "no"@ || w == "off"@
}

/// The words that switch TLS on.
pub open spec fn is_on_word(w: Seq<char>) -> bool {
    w == "1"@ || w == "true"@ || w == "yes"@ || w == "on"@
}

/// Reads the TLS switch (`None` when unset).
pub fn resolve_use_tls(value: &Option<String>) -> (r: TlsChoice)
    ensures
        match value {
            None => r.use_tls && !r.warn,
            Some(raw) => {
                let w = ascii_lowercase(trim(raw@));
                if trim(raw@).len() == 0 {
                    r.use_tls && !r.warn
                } else if is_off_word(w) {
                    !r.use_tls && !r.warn
                } else if is_on_word(w) {
                    r.use_tls && !r.warn
                } else {
                    r.use_tls && r.warn
                }
            },
        },
{
    match value {
        None => TlsChoice { use_tls: true, warn: false },
        Some(raw) => {
            let cs = chars_of(raw.as_str());
            let t = trim_chars(&cs);
            if t.len() == 0 {
                return TlsChoice { use_tls: true, warn: false };
            }
            let w = ascii_lowercase_chars(&t);
            let ws = string_of(&w);
            let s = ws.as_str();
            if crate::text::str_eq(s, "0") || crate::text::str_eq(s, "false") || crate::text::str_eq(s, "no")
                || crate::text::str_eq(s, "off") {
                TlsChoice { use_tls: false, warn: false }
            } else if crate::text::str_eq(s, "1") || crate::text::str_eq(s, "true") || crate::text::str_eq(
                s,
                "yes",
            ) || crate::text::str_eq(s, "on") {
                TlsChoice { use_tls: true, warn: false }
            } else {
                TlsChoice { use_tls: true, warn: true }
            }
        },
    }
}

/// The port the server listens on, and which settings were unreadable.
#[derive(Clone, Debug, PartialEq)]
pub struct PortChoice {
    pub port: u16,
    /// `PORT` was set to something other than a port.
    pub warn_port: bool,
    /// `CLOCK_IT_PORT` was set to something other than a port.
    pub warn_clock_port: bool,
}

/// The port that a setting names, if it names one (a number 1 to 65535,
/// white space around it allowed).
pub open spec fn setting_port(raw: Seq<char>) -> Option<int> {
    match parse_u16_spec(trim(raw)) {
        Some(p) => if p != 0 { Some(p) } else { None },
        None => None,
    }
}

/// The port by default: 3443 with TLS, 3000 without.
pub open spec fn default_port(use_tls: bool) -> int {
    if use_tls {
        3443
    } else {
        3000
    }
}

/// The port of a setting.
fn read_port(raw: &str) -> (r: Option<u16>)
    ensures
        match setting_port(raw@) {
            Some(p) => r == Some(p as u16),
            None => r is None,
        },
{
    let cs = chars_of(raw);
    let t = trim_chars(&cs);
    let ts = string_of(&t);
    match parse_u16(ts.as_str()) {
        Some(p) => if p != 0 {
            Some(p)
        } else {
            None
        },
        None => None,
    }
}

/// Chooses the port: `PORT` when it names one, then `CLOCK_IT_PORT` when it
/// names one, else the default; a setting that is present, not blank and
/// names no port is flagged (a blank `CLOCK_IT_PORT` means the default).
pub fn resolve_port(use_tls: bool, port_var: &Option<String>, clock_port_var: &Option<String>) -> (r: PortChoice)
    ensures
        r.port != 0,
        match port_var {
            Some(raw) if setting_port(raw@) is Some => r.port == setting_port(raw@)->0 && !r.warn_port
                && !r.warn_clock_port,
            _ => {
                &&& r.warn_port == (port_var matches Some(raw) && trim(raw@).len() != 0)
                &&& match clock_port_var {
                    None => r.port == default_port(use_tls) && !r.warn_clock_port,
                    Some(raw) => if trim(raw@).len() == 0 {
                        r.port == default_port(use_tls) && !r.warn_clock_port
                    } else {
                        match setting_port(raw@) {
                            Some(p) => r.port == p && !r.warn_clock_port,
                            None => r.port == default_port(use_tls) && r.warn_clock_port,
                        }
                    },
                }
            },
        },
{
    let default: u16 = if use_tls {
        3443
    } else {
        3000
    };
    let mut warn_port = false;
    match port_var {
        Some(raw) => {
            match read_port(raw.as_str()) {
                Some(p) => {
                    return PortChoice { port: p, warn_port: false, warn_clock_port: false };
                },
                None => {
                    let cs = chars_of(raw.as_str());
                    let t = trim_chars(&cs);
                    warn_port = t.len() != 0;
                },
            }
        },
        None => {},
    }
    match clock_port_var {
        None => PortChoice { port: default, warn_port, warn_clock_port: false },
        Some(raw) => {
            let cs = chars_of(raw.as_str());
            let t = trim_chars(&cs);
            if t.len() == 0 {
                return PortChoice { port: default, warn_port, warn_clock_port: false };
            }
            match read_port(raw.as_str()) {
                Some(p) => PortChoice { port: p, warn_port, warn_clock_port: false },
                None => PortChoice { port: default, warn_port, warn_clock_port: true },
            }
        },
    }
}

/// Where the address shown for phones came from.
#[derive(PartialEq, Eq, Debug, Clone, Copy)]
pub enum PhoneHintOrigin {
    Autodetected,
    Override,
    Fallback,
}

/// "scheme://host:port".
pub open spec fn url_of(scheme: Seq<char>, host: Seq<char>, port: int) -> Seq<char> {
    scheme + "://"@ + host + ":"@ + signed_decimal(port)
}

/// The address shown for phones: the override when it names a host, else
/// the detected LAN address, else a placeholder.
pub fn phone_access_hint(port: u16, scheme: &str, lan_override: &Option<String>, detected_ip: &Option<String>) -> (r: (
    String,
    PhoneHintOrigin,
))
    ensures
        match lan_override {
            Some(raw) if sanitized_host(raw@) is Some => r.0@ == url_of(
                scheme@,
                sanitized_host(raw@)->0,
                port as int,
            ) && r.1 == PhoneHintOrigin::Override,
            _ => match detected_ip {
                Some(ip) => r.0@ == url_of(scheme@, ip@, port as int) && r.1 == PhoneHintOrigin::Autodetected,
                None => r.0@ == url_of(scheme@, "<your-lan-ip>"@, port as int) && r.1
                    == PhoneHintOrigin::Fallback,
            },
        },
{
    let p = int_to_string(port as i64);
    let host_origin: (String, PhoneHintOrigin) = match lan_override {
        Some(raw) => match sanitize_host(raw.as_str()) {
            Some(h) => (h, PhoneHintOrigin::Override),
            None => match detected_ip {
                Some(ip) => (ip.clone(), PhoneHintOrigin::Autodetected),
                None => (owned("<your-lan-ip>"), PhoneHintOrigin::Fallback),
            },
        },
        None => match detected_ip {
            Some(ip) => (ip.clone(), PhoneHintOrigin::Autodetected),
            None => (owned("<your-lan-ip>"), PhoneHintOrigin::Fallback),
        },
    };
    let (host, origin) = host_origin;
    let mut s = concat3(scheme, "://", host.as_str());
    s.append(":");
    s.append(p.as_str());
    (s, origin)
}

} // verus!
