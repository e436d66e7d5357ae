use dyndnsd::url::{ConnectionScheme, ConnectionUrl, ConnectionUrlError};

fn triple(s: &str) -> (ConnectionScheme, String, u16) {
    let u = ConnectionUrl::parse(s).expect("descriptor parses");
    (u.scheme, u.host, u.port)
}

fn error(s: &str) -> ConnectionUrlError {
    match ConnectionUrl::parse(s) {
        Ok(u) => panic!("unexpectedly parsed to {:?}", u),
        Err(e) => e,
    }
}

#[test]
fn udp_ipv4_with_port() {
    assert_eq!(triple("udp://192.0.2.1:53"), (ConnectionScheme::Udp, "192.0.2.1".to_string(), 53));
}

#[test]
fn tcp_bracketed_ipv6_with_port() {
    assert_eq!(
        triple("tcp://[2001:db8::1]:53"),
        (ConnectionScheme::Tcp, "2001:db8::1".to_string(), 53)
    );
}

#[test]
fn bare_host_defaults_to_udp_and_port_53() {
    assert_eq!(triple("192.0.2.1"), (ConnectionScheme::Udp, "192.0.2.1".to_string(), 53));
}

#[test]
fn bracketed_ipv6_without_port_defaults_to_53() {
    assert_eq!(triple("tcp://[::1]"), (ConnectionScheme::Tcp, "::1".to_string(), 53));
}

#[test]
fn other_port_is_read() {
    assert_eq!(triple("tcp://192.0.2.1:5353"), (ConnectionScheme::Tcp, "192.0.2.1".to_string(), 5353));
    assert_eq!(triple("192.0.2.1:65535"), (ConnectionScheme::Udp, "192.0.2.1".to_string(), 65535));
    assert_eq!(triple("192.0.2.1:+80"), (ConnectionScheme::Udp, "192.0.2.1".to_string(), 80));
}

#[test]
fn unclosed_bracket_is_malformed() {
    assert_eq!(error("[2001:db8::1"), ConnectionUrlError::MalformedV6);
    assert_eq!(error("udp://[2001:db8::1:53"), ConnectionUrlError::MalformedV6);
}

#[test]
fn bad_ports_are_refused() {
    assert_eq!(error("192.0.2.1:65536"), ConnectionUrlError::PortParsing);
    assert_eq!(error("192.0.2.1:"), ConnectionUrlError::PortParsing);
    assert_eq!(error("192.0.2.1:5x"), ConnectionUrlError::PortParsing);
    assert_eq!(error("192.0.2.1:-1"), ConnectionUrlError::PortParsing);
    assert_eq!(error("192.0.2.1:99999999999999999999"), ConnectionUrlError::PortParsing);
    assert_eq!(error("[::1]:"), ConnectionUrlError::PortParsing);
}

#[test]
fn empty_host_is_refused() {
    assert_eq!(error(":53"), ConnectionUrlError::IpParsing);
    assert_eq!(error("udp://"), ConnectionUrlError::IpParsing);
    assert_eq!(error("[]:53"), ConnectionUrlError::IpParsing);
}

#[test]
fn port_parser_matches_decimal_rules() {
    assert_eq!(dyndnsd::url::parse_port("0"), Some(0));
    assert_eq!(dyndnsd::url::parse_port("053"), Some(53));
    assert_eq!(dyndnsd::url::parse_port("+"), None);
    assert_eq!(dyndnsd::url::parse_port(""), None);
}

#[test]
fn descriptor_is_written_back() {
    let u = ConnectionUrl::parse("tcp://[2001:db8::1]:53").unwrap();
    assert_eq!(u.to_url_string(), "tcp://[2001:db8::1]:53");
    let u = ConnectionUrl::parse("192.0.2.1").unwrap();
    assert_eq!(u.to_url_string(), "udp://192.0.2.1:53");
    let u = ConnectionUrl::parse("udp://10.0.0.7:0").unwrap();
    assert_eq!(u.to_url_string(), "udp://10.0.0.7:0");
    let u = ConnectionUrl::parse("udp://10.0.0.7:8053").unwrap();
    assert_eq!(u.to_url_string(), "udp://10.0.0.7:8053");
}

#[test]
fn from_str_agrees_with_parse() {
    let u: ConnectionUrl = "tcp://192.0.2.1:53".parse().unwrap();
    assert_eq!(u.scheme, ConnectionScheme::Tcp);
    assert_eq!(u.port, 53);
}

#[test]
fn split_keeps_host_and_port_text() {
    assert_eq!(
        ConnectionUrl::split("tcp://[2001:db8::1]:53"),
        Ok((ConnectionScheme::Tcp, "2001:db8::1", Some("53")))
    );
    assert_eq!(ConnectionUrl::split("192.0.2.1"), Ok((ConnectionScheme::Udp, "192.0.2.1", None)));
    assert_eq!(
        ConnectionUrl::split("example.org:dns"),
        Ok((ConnectionScheme::Udp, "example.org", Some("dns")))
    );
    assert_eq!(ConnectionUrl::split("[::1"), Err(ConnectionUrlError::MalformedV6));
}

#[test]
fn unbracketed_ipv6_splits_at_last_colon() {
    assert_eq!(triple("2001:db8::1"), (ConnectionScheme::Udp, "2001:db8:".to_string(), 1));
    assert_eq!(error("udp://192.0.2.1:65536"), ConnectionUrlError::PortParsing);
    assert_eq!(error("tcp://[2001:db8::1:53"), ConnectionUrlError::MalformedV6);
}

#[test]
fn from_str_reports_errors_like_parse() {
    let r: Result<ConnectionUrl, ConnectionUrlError> = "[2001:db8::1".parse();
    assert_eq!(r.err(), Some(ConnectionUrlError::MalformedV6));
    let r: Result<ConnectionUrl, ConnectionUrlError> = "192.0.2.1:70000".parse();
    assert_eq!(r.err(), Some(ConnectionUrlError::PortParsing));
}
