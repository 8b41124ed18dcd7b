//! End-to-end tests of the engine: loading scripts, evaluating
//! `FindProxyForURL` with the standard library, the step budget, and the
//! resolution snapshot.

use pacparser::clock::Moment;
use pacparser::{EvalError, LoadError, PacParser};

fn moment(
    year: u16,
    month: u8,
    day: u8,
    weekday: u8,
    hour: u8,
    minute: u8,
    second: u8,
) -> Moment {
    Moment { year, month, day, weekday, hour, minute, second }
}

#[test]
fn scenario_internal_hosts_use_proxy() {
    let script = r#"function FindProxyForURL(url, host) {
        if (shExpMatch(host, "*.internal")) return "PROXY 10.0.0.1:8080; DIRECT";
        return "DIRECT";
    }"#;
    let p = PacParser::new(script).unwrap();
    assert_eq!(p.find_proxy("http://svc.internal/a").unwrap(), "PROXY 10.0.0.1:8080; DIRECT");
    assert_eq!(p.find_proxy("http://example.com").unwrap(), "DIRECT");
}

#[test]
fn scenario_unresolvable_host_takes_false_branch() {
    let script = r#"function FindProxyForURL(url, host) {
        if (dnsResolve("definitely-nonexistent.invalid") == null) {
            return "DIRECT";
        }
        return "PROXY 10.0.0.1:8080";
    }"#;
    let p = PacParser::new(script).unwrap();
    // an unknown host counts as a resolution failure by default
    assert_eq!(p.find_proxy("http://example.com").unwrap(), "DIRECT");
}

#[test]
fn scenario_needs_dns_suspension_and_retry() {
    let script = r#"function FindProxyForURL(url, host) {
        if (isResolvable(host)) return "PROXY 10.0.0.1:8080";
        return "DIRECT";
    }"#;
    let mut p = PacParser::new(script).unwrap();
    p.set_unknown_is_failure(false);
    match p.find_proxy("http://db.example.com/") {
        Err(EvalError::NeedsDns(h)) => assert_eq!(h, "db.example.com"),
        other => panic!("expected a resolution request, got {:?}", other),
    }
    p.dns_insert("db.example.com", &vec![0x0A000001u32]);
    assert_eq!(p.find_proxy("http://db.example.com/").unwrap(), "PROXY 10.0.0.1:8080");
}

#[test]
fn scenario_tight_loop_times_out_and_engine_survives() {
    let script = r#"function FindProxyForURL(url, host) {
        while (true) { }
        return "DIRECT";
    }"#;
    let p = PacParser::new(script).unwrap();
    assert!(matches!(p.find_proxy("http://example.com"), Err(EvalError::Timeout)));
    // the engine stays usable after an exhausted budget
    assert!(matches!(p.find_proxy("http://example.com"), Err(EvalError::Timeout)));
    let good = PacParser::new(
        "function FindProxyForURL(url, host) { return \"DIRECT\"; }",
    )
    .unwrap();
    assert_eq!(good.find_proxy("http://example.com").unwrap(), "DIRECT");
}

#[test]
fn bounded_loop_finishes_within_budget() {
    let script = r#"function FindProxyForURL(url, host) {
        var i = 0;
        var s = "";
        while (i < 5) { s = s + "x"; i = i + 1; }
        return s;
    }"#;
    let p = PacParser::new(script).unwrap();
    assert_eq!(p.find_proxy("http://example.com").unwrap(), "xxxxx");
}

#[test]
fn dns_domain_is_matches_suffix_only() {
    let script = r#"function FindProxyForURL(url, host) {
        if (dnsDomainIs(host, ".example.com")) return "IN";
        return "OUT";
    }"#;
    let p = PacParser::new(script).unwrap();
    assert_eq!(p.find_proxy("http://www.example.com").unwrap(), "IN");
    assert_eq!(p.find_proxy("http://example.com").unwrap(), "OUT");
}

#[test]
fn sh_exp_match_anchors_the_pattern() {
    let script = r#"function FindProxyForURL(url, host) {
        if (shExpMatch(url, "*.html")) return "H";
        return "N";
    }"#;
    let p = PacParser::new(script).unwrap();
    assert_eq!(p.find_proxy("http://x/y.html").unwrap(), "H");
    assert_eq!(p.find_proxy("http://x/y.htm").unwrap(), "N");
}

#[test]
fn is_in_net_boundary() {
    let script = r#"function FindProxyForURL(url, host) {
        if (isInNet(host, "192.168.1.0", "255.255.255.0")) return "NET";
        return "OFF";
    }"#;
    let mut p = PacParser::new(script).unwrap();
    p.dns_insert("lab.internal", &vec![0xC0A8010Au32]); // 192.168.1.10
    assert_eq!(p.find_proxy("http://lab.internal/").unwrap(), "NET");

    let script2 = r#"function FindProxyForURL(url, host) {
        if (isInNet(host, "192.168.1.0", "255.255.255.255")) return "NET";
        return "OFF";
    }"#;
    let mut p2 = PacParser::new(script2).unwrap();
    p2.dns_insert("lab.internal", &vec![0xC0A8010Au32]);
    assert_eq!(p2.find_proxy("http://lab.internal/").unwrap(), "OFF");
}

#[test]
fn dns_resolve_returns_dotted_quad() {
    let script = r#"function FindProxyForURL(url, host) {
        return dnsResolve(host);
    }"#;
    let mut p = PacParser::new(script).unwrap();
    p.dns_insert("Db.Example.Com", &vec![0x0A000102u32]); // 10.0.1.2, keyed case-insensitively
    assert_eq!(p.find_proxy("http://db.example.com/").unwrap(), "10.0.1.2");
}

#[test]
fn dns_entries_expire_after_ttl() {
    let script = r#"function FindProxyForURL(url, host) {
        if (isResolvable(host)) return "UP";
        return "DOWN";
    }"#;
    let mut p = PacParser::new(script).unwrap();
    p.dns_insert("svc.example.com", &vec![0x0A000001u32]); // stamped at now == 0
    assert_eq!(p.find_proxy("http://svc.example.com/").unwrap(), "UP");
    let m = moment(2024, 6, 15, 6, 12, 0, 0);
    p.set_clock(301, m, m); // past the default TTL of 300
    assert_eq!(p.find_proxy("http://svc.example.com/").unwrap(), "DOWN");
}

#[test]
fn failure_marks_are_clearable() {
    let script = r#"function FindProxyForURL(url, host) {
        if (isResolvable("flaky.example.com")) return "UP";
        return "DOWN";
    }"#;
    let mut p = PacParser::new(script).unwrap();
    p.set_unknown_is_failure(false);
    p.dns_mark_failed("flaky.example.com");
    assert_eq!(p.find_proxy("http://a.example.com/").unwrap(), "DOWN");
    p.dns_clear_failed();
    p.dns_insert("flaky.example.com", &vec![0x0A000001u32]);
    assert_eq!(p.find_proxy("http://a.example.com/").unwrap(), "UP");
}

#[test]
fn my_ip_address_reports_the_context_address() {
    let script = r#"function FindProxyForURL(url, host) {
        return myIpAddress();
    }"#;
    let mut p = PacParser::new(script).unwrap();
    assert_eq!(p.find_proxy("http://example.com").unwrap(), "127.0.0.1");
    p.set_my_ip(0x0A141E28); // 10.20.30.40
    assert_eq!(p.find_proxy("http://example.com").unwrap(), "10.20.30.40");
}

#[test]
fn plain_host_name_and_levels() {
    let script = r#"function FindProxyForURL(url, host) {
        if (isPlainHostName(host)) return "PLAIN";
        return "L" + dnsDomainLevels(host);
    }"#;
    let p = PacParser::new(script).unwrap();
    assert_eq!(p.find_proxy("http://host1").unwrap(), "PLAIN");
    assert_eq!(p.find_proxy("http://www.example.com").unwrap(), "L2");
}

#[test]
fn local_host_or_domain_is_bare_hostname() {
    let script = r#"function FindProxyForURL(url, host) {
        if (localHostOrDomainIs(host, "www.example.com")) return "Y";
        return "N";
    }"#;
    let p = PacParser::new(script).unwrap();
    assert_eq!(p.find_proxy("http://www.example.com").unwrap(), "Y");
    assert_eq!(p.find_proxy("http://www").unwrap(), "Y");
    assert_eq!(p.find_proxy("http://web.example.com").unwrap(), "N");
}

#[test]
fn weekday_range_with_clock() {
    let script = r#"function FindProxyForURL(url, host) {
        if (weekdayRange("MON", "FRI")) return "WORK";
        return "REST";
    }"#;
    let mut p = PacParser::new(script).unwrap();
    let wed = moment(2024, 6, 12, 3, 10, 30, 0);
    p.set_clock(1, wed, wed);
    assert_eq!(p.find_proxy("http://example.com").unwrap(), "WORK");
    let sun = moment(2024, 6, 16, 0, 10, 30, 0);
    p.set_clock(2, sun, sun);
    assert_eq!(p.find_proxy("http://example.com").unwrap(), "REST");
}

#[test]
fn weekday_range_gmt_flag_uses_gmt_moment() {
    let script = r#"function FindProxyForURL(url, host) {
        if (weekdayRange("SAT", "GMT")) return "S";
        return "N";
    }"#;
    let mut p = PacParser::new(script).unwrap();
    let local = moment(2024, 6, 14, 5, 23, 30, 0); // Friday locally
    let gmt = moment(2024, 6, 15, 6, 0, 30, 0); // already Saturday in GMT
    p.set_clock(1, local, gmt);
    assert_eq!(p.find_proxy("http://example.com").unwrap(), "S");
}

#[test]
fn time_range_wraps_midnight() {
    let script = r#"function FindProxyForURL(url, host) {
        if (timeRange(22, 5)) return "NIGHT";
        return "DAY";
    }"#;
    let mut p = PacParser::new(script).unwrap();
    let late = moment(2024, 6, 12, 3, 23, 10, 0);
    p.set_clock(1, late, late);
    assert_eq!(p.find_proxy("http://example.com").unwrap(), "NIGHT");
    let noon = moment(2024, 6, 12, 3, 12, 0, 0);
    p.set_clock(2, noon, noon);
    assert_eq!(p.find_proxy("http://example.com").unwrap(), "DAY");
}

#[test]
fn date_range_by_month_names() {
    let script = r#"function FindProxyForURL(url, host) {
        if (dateRange("JUN", "AUG")) return "SUMMER";
        return "OTHER";
    }"#;
    let mut p = PacParser::new(script).unwrap();
    let july = moment(2024, 7, 4, 4, 9, 0, 0);
    p.set_clock(1, july, july);
    assert_eq!(p.find_proxy("http://example.com").unwrap(), "SUMMER");
    let jan = moment(2024, 1, 4, 4, 9, 0, 0);
    p.set_clock(2, jan, jan);
    assert_eq!(p.find_proxy("http://example.com").unwrap(), "OTHER");
}

#[test]
fn substring_and_to_lower_case() {
    let script = r#"function FindProxyForURL(url, host) {
        if (url.substring(0, 6) == "https:") return "SECURE";
        return host.toLowerCase();
    }"#;
    let p = PacParser::new(script).unwrap();
    assert_eq!(p.find_proxy("https://www.somehost.com").unwrap(), "SECURE");
    assert_eq!(p.find_proxy("http://MIXED.Example.COM").unwrap(), "mixed.example.com");
}

#[test]
fn helper_functions_are_callable() {
    let script = r#"function pick(host) {
        if (dnsDomainIs(host, ".corp.example.com")) return "PROXY gw.corp.example.com:3128";
        return "DIRECT";
    }
    function FindProxyForURL(url, host) {
        return pick(host);
    }"#;
    let p = PacParser::new(script).unwrap();
    assert_eq!(
        p.find_proxy("http://wiki.corp.example.com/x").unwrap(),
        "PROXY gw.corp.example.com:3128"
    );
    assert_eq!(p.find_proxy("http://example.org").unwrap(), "DIRECT");
}

#[test]
fn load_errors_are_reported() {
    match PacParser::new("function FindProxyForURL(url, host) {") {
        Err(e) => assert_eq!(e, LoadError::BadSyntax),
        Ok(_) => panic!("expected a syntax error"),
    }
    match PacParser::new("function helper(x) { return x; }") {
        Err(e) => assert_eq!(e, LoadError::NoEntry),
        Ok(_) => panic!("expected a missing-entry error"),
    }
}

#[test]
fn bad_urls_are_rejected_before_evaluation() {
    let p = PacParser::new("function FindProxyForURL(url, host) { return \"DIRECT\"; }").unwrap();
    assert!(matches!(p.find_proxy("not a url"), Err(EvalError::UrlParse)));
    assert!(matches!(p.find_proxy("data:text/plain,hi"), Err(EvalError::UrlParse)));
}

#[test]
fn evaluation_is_repeatable() {
    let script = r#"function FindProxyForURL(url, host) {
        if (shExpMatch(host, "*.internal")) return "PROXY 10.0.0.1:8080";
        return "DIRECT";
    }"#;
    let p = PacParser::new(script).unwrap();
    let a = p.find_proxy("http://svc.internal/a").unwrap();
    let b = p.find_proxy("http://svc.internal/a").unwrap();
    assert_eq!(a, b);
}

#[test]
fn non_string_return_is_a_script_error() {
    let p = PacParser::new("function FindProxyForURL(url, host) { return 42; }").unwrap();
    assert!(matches!(p.find_proxy("http://example.com"), Err(EvalError::ScriptError)));
    let q = PacParser::new("function FindProxyForURL(url, host) { return noSuchFn(); }").unwrap();
    assert!(matches!(q.find_proxy("http://example.com"), Err(EvalError::ScriptError)));
}

#[test]
fn test() {
    let test_pac = r#"// a routing policy exercising the classic host functions
function FindProxyForURL(url, host) {
    if (isPlainHostName(host) || dnsDomainIs(host, ".manugarg.com")) {
        return "plainhost/.manugarg.com";
    }
    if (shExpMatch(host, "*.externaldomain.com")) {
        return "externaldomain";
    }
    if (shExpMatch(host, "*.google.com") && isResolvable(host)) {
        return "isResolvable";
    }
    if (url.substring(0, 6) == "https:") {
        return "secureUrl";
    }
    return "END-OF-SCRIPT";
}"#;
    let mut p = PacParser::new(&test_pac).unwrap();
    p.dns_insert("www.google.com", &vec![0x8EFA4E64u32]);

    assert_eq!("END-OF-SCRIPT", p.find_proxy("http://www.google.co.in").unwrap());
    assert_eq!("plainhost/.manugarg.com", p.find_proxy("http://host1").unwrap());

    assert_eq!("plainhost/.manugarg.com", p.find_proxy("http://www1.manugarg.com").unwrap());

    assert_eq!("externaldomain", p.find_proxy("http://manugarg.externaldomain.com").unwrap());

    assert_eq!("isResolvable", p.find_proxy("http://www.google.com").unwrap());

    assert_eq!("secureUrl", p.find_proxy("https://www.somehost.com").unwrap());
    assert_eq!("END-OF-SCRIPT", p.find_proxy("http://www.somehost.com").unwrap());
}

#[test]
fn comments_and_quotes_are_lexed() {
    let script = "// heading\nfunction FindProxyForURL(url, host) {\n  /* block\n   comment */\n  var q = 'single';\n  if (q == \"single\") return \"OK\";\n  return \"NO\";\n}";
    let p = PacParser::new(script).unwrap();
    assert_eq!(p.find_proxy("http://example.com").unwrap(), "OK");
}

#[test]
fn date_range_day_and_month_pairs() {
    let script = r#"function FindProxyForURL(url, host) {
        if (dateRange(1, "JUN", 15, "AUG")) return "IN";
        return "OUT";
    }"#;
    let mut p = PacParser::new(script).unwrap();
    let july = moment(2024, 7, 4, 4, 9, 0, 0);
    p.set_clock(1, july, july);
    assert_eq!(p.find_proxy("http://example.com").unwrap(), "IN");
    let september = moment(2024, 9, 2, 1, 9, 0, 0);
    p.set_clock(2, september, september);
    assert_eq!(p.find_proxy("http://example.com").unwrap(), "OUT");

    let wrap = r#"function FindProxyForURL(url, host) {
        if (dateRange(15, "DEC", 10, "JAN")) return "IN";
        return "OUT";
    }"#;
    let mut q = PacParser::new(wrap).unwrap();
    let dec = moment(2024, 12, 20, 5, 9, 0, 0);
    q.set_clock(1, dec, dec);
    assert_eq!(q.find_proxy("http://example.com").unwrap(), "IN");
    let june = moment(2024, 6, 20, 4, 9, 0, 0);
    q.set_clock(2, june, june);
    assert_eq!(q.find_proxy("http://example.com").unwrap(), "OUT");
}

#[test]
fn date_range_exact_date_and_years() {
    let script = r#"function FindProxyForURL(url, host) {
        if (dateRange(15, "JUN", 2024)) return "IN";
        return "OUT";
    }"#;
    let mut p = PacParser::new(script).unwrap();
    let hit = moment(2024, 6, 15, 6, 9, 0, 0);
    p.set_clock(1, hit, hit);
    assert_eq!(p.find_proxy("http://example.com").unwrap(), "IN");
    let miss = moment(2024, 6, 16, 0, 9, 0, 0);
    p.set_clock(2, miss, miss);
    assert_eq!(p.find_proxy("http://example.com").unwrap(), "OUT");

    let years = r#"function FindProxyForURL(url, host) {
        if (dateRange("OCT", 2023, "MAR", 2024)) return "IN";
        return "OUT";
    }"#;
    let mut q = PacParser::new(years).unwrap();
    let jan = moment(2024, 1, 4, 4, 9, 0, 0);
    q.set_clock(1, jan, jan);
    assert_eq!(q.find_proxy("http://example.com").unwrap(), "IN");
    let may = moment(2024, 5, 4, 6, 9, 0, 0);
    q.set_clock(2, may, may);
    assert_eq!(q.find_proxy("http://example.com").unwrap(), "OUT");
}

#[test]
fn epoch_moment_conversion() {
    let m = pacparser::clock::moment_from_epoch(1718451296);
    assert_eq!(m.year, 2024);
    assert_eq!(m.month, 6);
    assert_eq!(m.day, 15);
    assert_eq!(m.weekday, 6);
    assert_eq!(m.hour, 11);
    assert_eq!(m.minute, 34);
    assert_eq!(m.second, 56);
    let epoch = pacparser::clock::moment_from_epoch(0);
    assert_eq!(epoch.year, 1970);
    assert_eq!(epoch.month, 1);
    assert_eq!(epoch.day, 1);
    assert_eq!(epoch.weekday, 4);
}

#[test]
fn date_range_day_of_month_and_month_of_year() {
    let script = r#"function FindProxyForURL(url, host) {
        if (dateRange(15, "JUN")) return "IN";
        return "OUT";
    }"#;
    let mut p = PacParser::new(script).unwrap();
    let hit = moment(2024, 6, 15, 6, 9, 0, 0);
    p.set_clock(1, hit, hit);
    assert_eq!(p.find_proxy("http://example.com").unwrap(), "IN");
    let miss = moment(2024, 7, 15, 1, 9, 0, 0);
    p.set_clock(2, miss, miss);
    assert_eq!(p.find_proxy("http://example.com").unwrap(), "OUT");

    let my = r#"function FindProxyForURL(url, host) {
        if (dateRange("JUN", 2024)) return "IN";
        return "OUT";
    }"#;
    let mut q = PacParser::new(my).unwrap();
    q.set_clock(1, hit, hit);
    assert_eq!(q.find_proxy("http://example.com").unwrap(), "IN");
    let other = moment(2025, 6, 15, 0, 9, 0, 0);
    q.set_clock(2, other, other);
    assert_eq!(q.find_proxy("http://example.com").unwrap(), "OUT");
}
