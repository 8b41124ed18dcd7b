//! Unit tests of the pure PAC standard-library functions: hostname
//! predicates, glob matching, and dotted-quad arithmetic.

use pacparser::pacfns::{
    dns_domain_is, dns_domain_levels, in_net, ipv4_fmt, is_plain_host_name,
    local_host_or_domain_is, parse_ipv4, sh_exp_match,
};
use pacparser::text::{chars_to_string, str_to_chars};

#[test]
fn dns_domain_is_cases() {
    assert!(dns_domain_is(&str_to_chars("www.example.com"), &str_to_chars(".example.com")));
    assert!(!dns_domain_is(&str_to_chars("example.com"), &str_to_chars(".example.com")));
    assert!(dns_domain_is(&str_to_chars("WWW.EXAMPLE.COM"), &str_to_chars(".example.Com")));
    assert!(!dns_domain_is(&str_to_chars("www.example.org"), &str_to_chars(".example.com")));
}

#[test]
fn sh_exp_match_cases() {
    assert!(sh_exp_match(&str_to_chars("http://x/y.html"), &str_to_chars("*.html")));
    assert!(!sh_exp_match(&str_to_chars("http://x/y.htm"), &str_to_chars("*.html")));
    assert!(sh_exp_match(&str_to_chars("abc"), &str_to_chars("a?c")));
    assert!(!sh_exp_match(&str_to_chars("abc"), &str_to_chars("a?d")));
    assert!(sh_exp_match(&str_to_chars(""), &str_to_chars("*")));
    assert!(!sh_exp_match(&str_to_chars("ABC"), &str_to_chars("abc")));
}

#[test]
fn in_net_boundary_arithmetic() {
    let ip = parse_ipv4(&str_to_chars("192.168.1.10")).unwrap();
    let pat = parse_ipv4(&str_to_chars("192.168.1.0")).unwrap();
    let wide = parse_ipv4(&str_to_chars("255.255.255.0")).unwrap();
    let exact = parse_ipv4(&str_to_chars("255.255.255.255")).unwrap();
    assert!(in_net(ip, pat, wide));
    assert!(!in_net(ip, pat, exact));
}

#[test]
fn ipv4_parsing_and_formatting() {
    assert_eq!(parse_ipv4(&str_to_chars("10.0.0.1")), Some(0x0A000001));
    assert_eq!(parse_ipv4(&str_to_chars("255.255.255.255")), Some(0xFFFFFFFF));
    assert_eq!(parse_ipv4(&str_to_chars("0.0.0.0")), Some(0));
    assert_eq!(parse_ipv4(&str_to_chars("256.0.0.1")), None);
    assert_eq!(parse_ipv4(&str_to_chars("1.2.3")), None);
    assert_eq!(parse_ipv4(&str_to_chars("1.2.3.4.5")), None);
    assert_eq!(parse_ipv4(&str_to_chars("a.b.c.d")), None);
    assert_eq!(chars_to_string(&ipv4_fmt(0xC0A8010A)), "192.168.1.10");
    assert_eq!(chars_to_string(&ipv4_fmt(0x7F000001)), "127.0.0.1");
}

#[test]
fn plain_host_and_levels() {
    assert!(is_plain_host_name(&str_to_chars("host1")));
    assert!(!is_plain_host_name(&str_to_chars("www.example.com")));
    assert_eq!(dns_domain_levels(&str_to_chars("host1")), 0);
    assert_eq!(dns_domain_levels(&str_to_chars("www.example.com")), 2);
}

#[test]
fn local_host_or_domain_cases() {
    assert!(local_host_or_domain_is(&str_to_chars("www.example.com"), &str_to_chars("www.example.com")));
    assert!(local_host_or_domain_is(&str_to_chars("www"), &str_to_chars("www.example.com")));
    assert!(!local_host_or_domain_is(&str_to_chars("web"), &str_to_chars("www.example.com")));
    assert!(!local_host_or_domain_is(&str_to_chars("www.example.org"), &str_to_chars("www.example.com")));
}
