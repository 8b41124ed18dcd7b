//! Tests of the proxy directive grammar: parsing, formatting, fail-open
//! behavior and the chain/text round trip.

use pacparser::directive::{DirectiveKind, ProxyDirective};
use pacparser::text::str_to_chars;
use pacparser::{format_proxy_chain, parse_proxy_string};

fn direct() -> ProxyDirective {
    ProxyDirective { kind: DirectiveKind::Direct, host: None, port: None }
}

fn proxy(kind: DirectiveKind, host: &str, port: u16) -> ProxyDirective {
    ProxyDirective { kind, host: Some(str_to_chars(host)), port: Some(port) }
}

fn assert_chain_eq(a: &[ProxyDirective], b: &[ProxyDirective]) {
    assert_eq!(a.len(), b.len());
    for i in 0..a.len() {
        assert_eq!(a[i].kind, b[i].kind);
        assert_eq!(a[i].host, b[i].host);
        assert_eq!(a[i].port, b[i].port);
    }
}

#[test]
fn parse_empty_is_direct() {
    let c = parse_proxy_string("");
    assert_chain_eq(&c, &[direct()]);
}

#[test]
fn parse_semicolons_only_is_direct() {
    let c = parse_proxy_string(";;;");
    assert_chain_eq(&c, &[direct()]);
}

#[test]
fn parse_unknown_keyword_is_direct() {
    let c = parse_proxy_string("FROBNICATE 10.0.0.1:8080");
    assert_chain_eq(&c, &[direct()]);
}

#[test]
fn parse_simple_chain() {
    let c = parse_proxy_string("PROXY 10.0.0.1:8080; DIRECT");
    assert_chain_eq(
        &c,
        &[proxy(DirectiveKind::Proxy, "10.0.0.1", 8080), direct()],
    );
}

#[test]
fn parse_is_case_insensitive_and_trims() {
    let c = parse_proxy_string("  proxy cache.example.com:3128 ;\tSoCkS relay:1080;  direct  ");
    assert_chain_eq(
        &c,
        &[
            proxy(DirectiveKind::Proxy, "cache.example.com", 3128),
            proxy(DirectiveKind::Socks, "relay", 1080),
            direct(),
        ],
    );
}

#[test]
fn invalid_port_drops_only_that_directive() {
    let c = parse_proxy_string("PROXY h:99999; DIRECT");
    assert_chain_eq(&c, &[direct()]);
    let c2 = parse_proxy_string("PROXY h:99999; PROXY ok:80");
    assert_chain_eq(&c2, &[proxy(DirectiveKind::Proxy, "ok", 80)]);
}

#[test]
fn port_bounds() {
    let c = parse_proxy_string("PROXY h:0; PROXY g:65535");
    assert_chain_eq(
        &c,
        &[proxy(DirectiveKind::Proxy, "h", 0), proxy(DirectiveKind::Proxy, "g", 65535)],
    );
}

#[test]
fn format_chain_text() {
    let c = vec![proxy(DirectiveKind::Proxy, "10.0.0.1", 8080), direct()];
    assert_eq!(format_proxy_chain(&c), "PROXY 10.0.0.1:8080; DIRECT");
}

#[test]
fn round_trip_chain() {
    let c = vec![
        proxy(DirectiveKind::Proxy, "cache.example.com", 3128),
        direct(),
        proxy(DirectiveKind::Socks, "relay.example.com", 1080),
    ];
    let text = format_proxy_chain(&c);
    let back = parse_proxy_string(&text);
    assert_chain_eq(&back, &c);
    // and a second trip is stable
    assert_eq!(format_proxy_chain(&back), text);
}

#[test]
fn missing_port_is_dropped() {
    let c = parse_proxy_string("PROXY hostonly; DIRECT");
    assert_chain_eq(&c, &[direct()]);
}
