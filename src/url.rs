//! The connection descriptor of a DNS server that takes signed updates:
//! `[scheme://]host[:port]`, with a bracketed IPv6 literal as host.
use vstd::prelude::*;

verus! {

/// Port used when the descriptor names none.
pub const DEFAULT_DNS_PORT: u16 = 53;

/// Transport used to reach the DNS server.
#[derive(Clone, Copy, Debug, PartialEq, Eq, Structural)]
pub enum ConnectionScheme {
    Tcp,
    Udp,
}

/// A parsed connection descriptor. `host` is the address literal as written,
/// without brackets.
#[derive(Clone, Debug)]
pub struct ConnectionUrl {
    pub scheme: ConnectionScheme,
    pub host: String,
    pub port: u16,
}

/// Why a connection descriptor was refused.
#[derive(Clone, Copy, Debug, PartialEq, Eq, Structural)]
pub enum ConnectionUrlError {
    /// An opening `[` without a closing `]`.
    MalformedV6,
    /// The address part is not an address.
    IpParsing,
    /// The port part is not a number in `0..=65535`.
    PortParsing,
}

pub open spec fn udp_prefix() -> Seq<char> {
    seq!['u', 'd', 'p', ':', '/', '/']
}

pub open spec fn tcp_prefix() -> Seq<char> {
    seq!['t', 'c', 'p', ':', '/', '/']
}

pub open spec fn has_prefix(s: Seq<char>, p: Seq<char>) -> bool {
    p.len() <= s.len() && s.take(p.len() as int) == p
}

/// Position of the last `c` in `s`, or -1 when there is none.
pub open spec fn last_index(s: Seq<char>, c: char) -> int
    decreases s.len(),
{
    if s.len() == 0 {
        -1
    } else if s.last() == c {
        s.len() - 1
    } else {
        last_index(s.drop_last(), c)
    }
}

/// The scheme a descriptor selects: TCP only when it says so.
pub open spec fn url_scheme(s: Seq<char>) -> ConnectionScheme {
    if has_prefix(s, udp_prefix()) {
        ConnectionScheme::Udp
    } else if has_prefix(s, tcp_prefix()) {
        ConnectionScheme::Tcp
    } else {
        ConnectionScheme::Udp
    }
}

/// The descriptor without its scheme.
pub open spec fn url_rest(s: Seq<char>) -> Seq<char> {
    if has_prefix(s, udp_prefix()) || has_prefix(s, tcp_prefix()) {
        s.skip(6)
    } else {
        s
    }
}

/// Host text and port text of what follows the scheme (`None` for the port
/// when none is written); `None` overall for an unclosed bracket.
pub open spec fn split_host_port(r: Seq<char>) -> Option<(Seq<char>, Option<Seq<char>>)> {
    if r.len() > 0 && r[0] == '[' {
        let b = r.skip(1);
        let k = last_index(b, ']');
        if k < 0 {
            None
        } else {
            let tail = b.skip(k + 1);
            let c = last_index(tail, ':');
            Some((b.take(k), if c < 0 { None } else { Some(tail.skip(c + 1)) }))
        }
    } else {
        let c = last_index(r, ':');
        if c < 0 {
            Some((r, None))
        } else {
            Some((r.take(c), Some(r.skip(c + 1))))
        }
    }
}

pub open spec fn is_digit(c: char) -> bool {
    '0' <= c && c <= '9'
}

pub open spec fn digit_value(c: char) -> nat {
    (c as nat - '0' as nat) as nat
}

/// Value of a run of decimal digits.
pub open spec fn digits_value(s: Seq<char>) -> nat
    decreases s.len(),
{
    if s.len() == 0 {
        0
    } else {
        digits_value(s.drop_last()) * 10 + digit_value(s.last())
    }
}

/// The digits of a port: an optional leading `+` is dropped.
pub open spec fn port_digits(s: Seq<char>) -> Seq<char> {
    if s.len() > 0 && s[0] == '+' {
        s.skip(1)
    } else {
        s
    }
}

/// A port number written in decimal.
pub open spec fn port_of(s: Seq<char>) -> Option<u16> {
    let d = port_digits(s);
    if d.len() > 0 && (forall|i: int| 0 <= i < d.len() ==> is_digit(#[trigger] d[i]))
        && digits_value(d) <= 65535 {
        Some(digits_value(d) as u16)
    } else {
        None
    }
}

/// The port a descriptor selects.
pub open spec fn port_or_default(p: Option<Seq<char>>) -> Option<u16> {
    match p {
        None => Some(DEFAULT_DNS_PORT),
        Some(t) => port_of(t),
    }
}

/// What parsing a descriptor gives: `Ok((scheme, host, port))` or the error.
pub open spec fn parse_spec(s: Seq<char>) -> Result<
    (ConnectionScheme, Seq<char>, u16),
    ConnectionUrlError,
> {
    match split_host_port(url_rest(s)) {
        None => Err(ConnectionUrlError::MalformedV6),
        Some((h, p)) => if h.len() == 0 {
            Err(ConnectionUrlError::IpParsing)
        } else {
            match port_or_default(p) {
                None => Err(ConnectionUrlError::PortParsing),
                Some(n) => Ok((url_scheme(s), h, n)),
            }
        },
    }
}

fn starts_with(s: &str, p: &str) -> (r: bool)
    ensures
        r == has_prefix(s@, p@),
{
    let n = p.unicode_len();
    let m = s.unicode_len();
    if n > m {
        return false;
    }
    let mut i: usize = 0;
    while i < n
        invariant
            n == p@.len(),
            m == s@.len(),
            n <= m,
            i <= n,
            forall|j: int| 0 <= j < i ==> s@[j] == p@[j],
        decreases n - i,
    {
        if s.get_char(i) != p.get_char(i) {
            assert(s@.take(n as int)[i as int] != p@[i as int]);
            return false;
        }
        i = i + 1;
    }
    assert(s@.take(n as int) =~= p@);
    true
}

proof fn lemma_last_index_prefix(s: Seq<char>, c: char, i: int)
    requires
        0 <= i < s.len(),
        s[i] != c,
    ensures
        last_index(s.take(i + 1), c) == last_index(s.take(i), c),
{
    assert(s.take(i + 1).drop_last() =~= s.take(i));
}

proof fn lemma_last_index_bounds(s: Seq<char>, c: char)
    ensures
        -1 <= last_index(s, c) < s.len(),
        last_index(s, c) >= 0 ==> s[last_index(s, c)] == c,
    decreases s.len(),
{
    if s.len() > 0 && s.last() != c {
        lemma_last_index_bounds(s.drop_last(), c);
    }
}

/// Position of the last `c` in `s`.
fn find_last(s: &str, c: char) -> (r: Option<usize>)
    ensures
        match r {
            Some(k) => k == last_index(s@, c),
            None => last_index(s@, c) == -1,
        },
{
    let n = s.unicode_len();
    let mut i: usize = n;
    assert(s@.take(n as int) =~= s@);
    while i > 0
        invariant
            n == s@.len(),
            i <= n,
            last_index(s@, c) == last_index(s@.take(i as int), c),
        decreases i,
    {
        if s.get_char(i - 1) == c {
            assert(s@.take(i as int).last() == c);
            return Some(i - 1);
        }
        proof {
            lemma_last_index_prefix(s@, c, i - 1);
        }
        i = i - 1;
    }
    None
}

/// Reads a port number in decimal, as `u16::from_str` does.
pub fn parse_port(s: &str) -> (r: Option<u16>)
    ensures
        r == port_of(s@),
{
    let n = s.unicode_len();
    let start: usize = if n > 0 && s.get_char(0) == '+' { 1 } else { 0 };
    let d = s.substring_char(start, n);
    assert(d@ =~= port_digits(s@));
    let len = n - start;
    if len == 0 {
        return None;
    }
    // `v` is the value read so far, held at 65536 once it is out of range.
    let mut v: u32 = 0;
    let mut i: usize = 0;
    while i < len
        invariant
            len == d@.len(),
            d@ == port_digits(s@),
            i <= len,
            v <= 65536,
            forall|j: int| 0 <= j < i ==> is_digit(#[trigger] d@[j]),
            v == (if digits_value(d@.take(i as int)) > 65535 {
                65536
            } else {
                digits_value(d@.take(i as int))
            }),
        decreases len - i,
    {
        let ch = d.get_char(i);
        if !('0' <= ch && ch <= '9') {
            assert(!is_digit(port_digits(s@)[i as int]));
            return None;
        }
        assert(d@.take(i + 1).drop_last() =~= d@.take(i as int));
        let dv: u32 = (ch as u32) - ('0' as u32);
        let nv: u32 = v * 10 + dv;
        v = if nv > 65535 { 65536 } else { nv };
        i = i + 1;
    }
    assert(d@.take(len as int) =~= d@);
    if v > 65535 {
        None
    } else {
        Some(v as u16)
    }
}

impl ConnectionUrl {
    /// Splits a descriptor into its scheme, its host text and its port text
    /// (`None` when no port is written), without reading host or port.
    /// Fails only on an opening `[` that is never closed.
    pub fn split<'a>(url: &'a str) -> (r: Result<
        (ConnectionScheme, &'a str, Option<&'a str>),
        ConnectionUrlError,
    >)
        ensures
            match split_host_port(url_rest(url@)) {
                None => r == Err::<(ConnectionScheme, &'a str, Option<&'a str>), ConnectionUrlError>(
                    ConnectionUrlError::MalformedV6,
                ),
                Some((h, p)) => r is Ok && r->Ok_0.0 == url_scheme(url@) && r->Ok_0.1@ == h
                    && match p {
                    None => r->Ok_0.2 is None,
                    Some(t) => r->Ok_0.2 is Some && r->Ok_0.2->0@ == t,
                },
            },
    {
        let is_udp = starts_with(url, "udp://");
        let is_tcp = !is_udp && starts_with(url, "tcp://");
        proof {
            reveal_strlit("udp://");
            reveal_strlit("tcp://");
            assert("udp://"@ =~= udp_prefix());
            assert("tcp://"@ =~= tcp_prefix());
        }
        let n = url.unicode_len();
        let rest = if is_udp || is_tcp {
            url.substring_char(6, n)
        } else {
            url.substring_char(0, n)
        };
        assert(rest@ =~= url_rest(url@));
        let scheme = if is_tcp {
            ConnectionScheme::Tcp
        } else {
            ConnectionScheme::Udp
        };
        let rn = rest.unicode_len();
        let (host, port_text) = if rn > 0 && rest.get_char(0) == '[' {
            let b = rest.substring_char(1, rn);
            assert(b@ =~= rest@.skip(1));
            match find_last(b, ']') {
                None => {
                    return Err(ConnectionUrlError::MalformedV6);
                },
                Some(k) => {
                    proof {
                        lemma_last_index_bounds(b@, ']');
                    }
                    let bn = b.unicode_len();
                    let tail = b.substring_char(k + 1, bn);
                    assert(tail@ =~= b@.skip(k + 1));
                    let h = b.substring_char(0, k);
                    assert(h@ =~= b@.take(k as int));
                    match find_last(tail, ':') {
                        None => (h, None),
                        Some(c) => {
                            proof {
                                lemma_last_index_bounds(tail@, ':');
                            }
                            let p = tail.substring_char(c + 1, bn - (k + 1));
                            assert(p@ =~= tail@.skip(c + 1));
                            (h, Some(p))
                        },
                    }
                },
            }
        } else {
            match find_last(rest, ':') {
                None => (rest, None),
                Some(c) => {
                    proof {
                        lemma_last_index_bounds(rest@, ':');
                    }
                    let h = rest.substring_char(0, c);
                    let p = rest.substring_char(c + 1, rn);
                    assert(h@ =~= rest@.take(c as int));
                    assert(p@ =~= rest@.skip(c + 1));
                    (h, Some(p))
                },
            }
        };
        Ok((scheme, host, port_text))
    }

    /// Parses `[udp://|tcp://]host[:port]`; the scheme defaults to UDP and the
    /// port to 53. A host written as `[...]` may hold colons.
    pub fn parse(url: &str) -> (r: Result<ConnectionUrl, ConnectionUrlError>)
        ensures
            match parse_spec(url@) {
                Ok((scheme, host, port)) => r is Ok && r->Ok_0.scheme == scheme && r->Ok_0.host@
                    == host && r->Ok_0.port == port,
                Err(e) => r == Err::<ConnectionUrl, ConnectionUrlError>(e),
            },
    {
        let (scheme, host, port_text) = match ConnectionUrl::split(url) {
            Err(e) => {
                return Err(e);
            },
            Ok(parts) => parts,
        };
        if host.unicode_len() == 0 {
            return Err(ConnectionUrlError::IpParsing);
        }
        let port = match port_text {
            None => DEFAULT_DNS_PORT,
            Some(p) => match parse_port(p) {
                None => {
                    return Err(ConnectionUrlError::PortParsing);
                },
                Some(v) => v,
            },
        };
        Ok(ConnectionUrl { scheme, host: String::from_str(host), port })
    }
}


pub open spec fn decimal_digits() -> Seq<char> {
    seq!['0', '1', '2', '3', '4', '5', '6', '7', '8', '9']
}

/// `n` written in decimal, without leading zeros.
pub open spec fn decimal(n: nat) -> Seq<char>
    decreases n,
{
    if n < 10 {
        seq![decimal_digits()[n as int]]
    } else {
        decimal(n / 10).push(decimal_digits()[(n % 10) as int])
    }
}

/// The host as a descriptor writes it: an IPv6 literal goes in brackets.
pub open spec fn host_text(h: Seq<char>) -> Seq<char> {
    if last_index(h, ':') >= 0 {
        seq!['['] + h + seq![']']
    } else {
        h
    }
}

/// The descriptor text of a scheme, a host and a port.
pub open spec fn url_text(scheme: ConnectionScheme, h: Seq<char>, port: u16) -> Seq<char> {
    (match scheme {
        ConnectionScheme::Tcp => tcp_prefix(),
        ConnectionScheme::Udp => udp_prefix(),
    }) + host_text(h) + seq![':'] + decimal(port as nat)
}

fn append_decimal(out: &mut String, n: u16)
    ensures
        final(out)@ == old(out)@ + decimal(n as nat),
    decreases n,
{
    if n >= 10 {
        append_decimal(out, n / 10);
    }
    let digits = "0123456789";
    proof {
        reveal_strlit("0123456789");
        assert(digits@ =~= decimal_digits());
    }
    let d = (n % 10) as usize;
    out.append(digits.substring_char(d, d + 1));
    proof {
        if n >= 10 {
            assert(decimal(n as nat) == decimal((n / 10) as nat).push(decimal_digits()[d as int]));
        }
    }
    assert(out@ =~= old(out)@ + decimal(n as nat));
}

impl ConnectionUrl {
    /// Writes the descriptor back as `scheme://host:port`, with brackets round
    /// an IPv6 host.
    pub fn to_url_string(&self) -> (r: String)
        ensures
            r@ == url_text(self.scheme, self.host@, self.port),
    {
        let mut out = match self.scheme {
            ConnectionScheme::Tcp => String::from_str("tcp://"),
            ConnectionScheme::Udp => String::from_str("udp://"),
        };
        proof {
            reveal_strlit("udp://");
            reveal_strlit("tcp://");
            reveal_strlit("[");
            reveal_strlit("]");
            reveal_strlit(":");
        }
        let bracket = find_last(self.host.as_str(), ':').is_some();
        if bracket {
            out.append("[");
        }
        out.append(self.host.as_str());
        if bracket {
            out.append("]");
        }
        out.append(":");
        append_decimal(&mut out, self.port);
        assert(out@ =~= url_text(self.scheme, self.host@, self.port));
        out
    }
}

impl std::str::FromStr for ConnectionUrl {
    type Err = ConnectionUrlError;

    fn from_str(url: &str) -> (r: Result<ConnectionUrl, ConnectionUrlError>)
        ensures
            match parse_spec(url@) {
                Ok((scheme, host, port)) => r is Ok && r->Ok_0.scheme == scheme && r->Ok_0.host@
                    == host && r->Ok_0.port == port,
                Err(e) => r == Err::<ConnectionUrl, ConnectionUrlError>(e),
            },
    {
        ConnectionUrl::parse(url)
    }
}

proof fn lemma_last_index_absent(s: Seq<char>, c: char)
    requires
        forall|i: int| 0 <= i < s.len() ==> s[i] != c,
    ensures
        last_index(s, c) == -1,
    decreases s.len(),
{
    if s.len() > 0 {
        lemma_last_index_absent(s.drop_last(), c);
    }
}

/// A host that opens with `[` and has no `]` after it is refused as a
/// malformed IPv6 literal, whatever the scheme.
pub proof fn lemma_unclosed_bracket_is_malformed(s: Seq<char>)
    requires
        url_rest(s).len() > 0,
        url_rest(s)[0] == '[',
        forall|i: int| 1 <= i < url_rest(s).len() ==> url_rest(s)[i] != ']',
    ensures
        parse_spec(s) == Err::<(ConnectionScheme, Seq<char>, u16), ConnectionUrlError>(
            ConnectionUrlError::MalformedV6,
        ),
{
    let b = url_rest(s).skip(1);
    assert forall|i: int| 0 <= i < b.len() implies b[i] != ']' by {
        assert(b[i] == url_rest(s)[i + 1]);
    }
    lemma_last_index_absent(b, ']');
}

proof fn lemma_digit(k: nat)
    requires
        k < 10,
    ensures
        is_digit(decimal_digits()[k as int]),
        digit_value(decimal_digits()[k as int]) == k,
{
    let d = decimal_digits();
    if k == 0 {
        assert(d[0] == '0');
    } else if k == 1 {
        assert(d[1] == '1');
    } else if k == 2 {
        assert(d[2] == '2');
    } else if k == 3 {
        assert(d[3] == '3');
    } else if k == 4 {
        assert(d[4] == '4');
    } else if k == 5 {
        assert(d[5] == '5');
    } else if k == 6 {
        assert(d[6] == '6');
    } else if k == 7 {
        assert(d[7] == '7');
    } else if k == 8 {
        assert(d[8] == '8');
    } else {
        assert(d[9] == '9');
    }
}

proof fn lemma_decimal(n: nat)
    ensures
        decimal(n).len() > 0,
        forall|i: int| 0 <= i < decimal(n).len() ==> is_digit(#[trigger] decimal(n)[i]),
        digits_value(decimal(n)) == n,
    decreases n,
{
    if n < 10 {
        lemma_digit(n);
        assert(decimal(n).drop_last() =~= Seq::<char>::empty());
        assert(digits_value(Seq::<char>::empty()) == 0);
    } else {
        lemma_decimal(n / 10);
        lemma_digit(n % 10);
        let s = decimal(n / 10);
        let c = decimal_digits()[(n % 10) as int];
        assert(s.push(c).drop_last() =~= s);
        assert(n == (n / 10) * 10 + n % 10) by (nonlinear_arith);
        assert forall|i: int| 0 <= i < decimal(n).len() implies is_digit(#[trigger] decimal(n)[i]) by {
            if i < s.len() {
                assert(decimal(n)[i] == s[i]);
            }
        }
    }
}

proof fn lemma_last_index_append(x: Seq<char>, y: Seq<char>, c: char)
    requires
        forall|i: int| 0 <= i < y.len() ==> y[i] != c,
    ensures
        last_index(x + y, c) == last_index(x, c),
    decreases y.len(),
{
    if y.len() == 0 {
        assert(x + y =~= x);
    } else {
        assert((x + y).drop_last() =~= x + y.drop_last());
        assert((x + y).last() == y.last());
        lemma_last_index_append(x, y.drop_last(), c);
    }
}

/// Parsing the text that `to_url_string` writes gives back the scheme, the
/// host and the port, for any non-empty host that is either bracketed (it
/// holds a colon) or does not itself open with `[`.
pub proof fn lemma_url_text_round_trip(scheme: ConnectionScheme, h: Seq<char>, port: u16)
    requires
        h.len() > 0,
        last_index(h, ':') < 0 ==> h[0] != '[',
    ensures
        parse_spec(url_text(scheme, h, port)) == Ok::<
            (ConnectionScheme, Seq<char>, u16),
            ConnectionUrlError,
        >((scheme, h, port)),
{
    let pre = match scheme {
        ConnectionScheme::Tcp => tcp_prefix(),
        ConnectionScheme::Udp => udp_prefix(),
    };
    let dec = decimal(port as nat);
    lemma_decimal(port as nat);
    assert forall|i: int| 0 <= i < dec.len() implies dec[i] != ':' && dec[i] != ']' by {
        assert(is_digit(dec[i]));
    }
    let r = host_text(h) + seq![':'] + dec;
    let s = url_text(scheme, h, port);
    assert(s =~= pre + r);
    assert(s.take(6) =~= pre);
    assert(s.skip(6) =~= r);
    if scheme == ConnectionScheme::Tcp {
        assert(s.take(6)[0] != udp_prefix()[0]);
    }
    assert(url_scheme(s) == scheme);
    assert(url_rest(s) == r);
    // The port text reads back as the port.
    assert(port_digits(dec) == dec);
    assert(port_of(dec) == Some(port));
    if last_index(h, ':') >= 0 {
        let b = r.skip(1);
        assert(b =~= h.push(']') + (seq![':'] + dec));
        assert forall|i: int| 0 <= i < (seq![':'] + dec).len() implies (seq![':'] + dec)[i]
            != ']' by {
            if i > 0 {
                assert((seq![':'] + dec)[i] == dec[i - 1]);
            }
        }
        lemma_last_index_append(h.push(']'), seq![':'] + dec, ']');
        assert(last_index(b, ']') == h.len());
        assert(b.take(h.len() as int) =~= h);
        let tail = b.skip(h.len() as int + 1);
        assert(tail =~= seq![':'] + dec);
        lemma_last_index_append(seq![':'], dec, ':');
        assert(last_index(tail, ':') == 0);
        assert(tail.skip(1) =~= dec);
    } else {
        assert(r =~= h.push(':') + dec);
        lemma_last_index_append(h.push(':'), dec, ':');
        assert(last_index(r, ':') == h.len());
        assert(r.take(h.len() as int) =~= h);
        assert(r.skip(h.len() as int + 1) =~= dec);
        assert(r[0] == h[0]);
    }
}

} // verus!
