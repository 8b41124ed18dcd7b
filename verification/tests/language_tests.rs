//! Tests of the scripting subset itself: operators, truthiness, branching,
//! assignment and precedence.

use pacparser::PacParser;

fn run(body: &str, url: &str) -> String {
    let script = format!("function FindProxyForURL(url, host) {{ {} }}", body);
    let p = PacParser::new(&script).unwrap();
    p.find_proxy(url).unwrap()
}

#[test]
fn arithmetic_and_comparisons() {
    assert_eq!(run("if (1 + 2 == 3) return \"A\"; return \"B\";", "http://h"), "A");
    assert_eq!(run("if (5 - 7 < 0) return \"A\"; return \"B\";", "http://h"), "A");
    assert_eq!(run("if (2 >= 2) return \"A\"; return \"B\";", "http://h"), "A");
    assert_eq!(run("if (2 > 2) return \"A\"; return \"B\";", "http://h"), "B");
    assert_eq!(run("if (-1 <= 0) return \"A\"; return \"B\";", "http://h"), "A");
}

#[test]
fn boolean_operators_and_truthiness() {
    assert_eq!(run("if (true && false) return \"A\"; return \"B\";", "http://h"), "B");
    assert_eq!(run("if (true || false) return \"A\"; return \"B\";", "http://h"), "A");
    assert_eq!(run("if (!\"\") return \"A\"; return \"B\";", "http://h"), "A");
    assert_eq!(run("if (\"x\") return \"A\"; return \"B\";", "http://h"), "A");
    assert_eq!(run("if (0) return \"A\"; return \"B\";", "http://h"), "B");
    assert_eq!(run("if (null) return \"A\"; return \"B\";", "http://h"), "B");
}

#[test]
fn else_branch_and_single_statements() {
    assert_eq!(
        run("if (host == \"h\") return \"Y\"; else return \"N\";", "http://h"),
        "Y"
    );
    assert_eq!(
        run("if (host == \"g\") return \"Y\"; else return \"N\";", "http://h"),
        "N"
    );
}

#[test]
fn variables_and_assignment() {
    assert_eq!(
        run("var a = \"p\"; a = a + \"q\"; var b = a + \"r\"; return b;", "http://h"),
        "pqr"
    );
}

#[test]
fn number_to_string_concatenation() {
    assert_eq!(run("return \"n=\" + 12; ", "http://h"), "n=12");
    assert_eq!(run("return \"n=\" + (3 - 5); ", "http://h"), "n=-2");
    assert_eq!(run("return 7 + \"!\"; ", "http://h"), "7!");
}

#[test]
fn null_and_undefined_compare_equal() {
    let script = r#"function u() { return; }
    function FindProxyForURL(url, host) {
        if (u() == null) return "EQ";
        return "NE";
    }"#;
    let p = PacParser::new(script).unwrap();
    assert_eq!(p.find_proxy("http://h").unwrap(), "EQ");
}

#[test]
fn precedence_of_and_over_or() {
    assert_eq!(
        run("if (false && true || true) return \"A\"; return \"B\";", "http://h"),
        "A"
    );
    assert_eq!(
        run("if (1 + 1 == 2 && 2 + 2 == 4) return \"A\"; return \"B\";", "http://h"),
        "A"
    );
}

#[test]
fn mixed_type_equality_is_false() {
    assert_eq!(run("if (\"1\" == 1) return \"A\"; return \"B\";", "http://h"), "B");
    assert_eq!(run("if (\"1\" != 1) return \"A\"; return \"B\";", "http://h"), "A");
}

#[test]
fn conditional_operator() {
    let script = r#"function FindProxyForURL(u, h) {
        return dnsDomainIs(h, ".example.com") ? "T" : "F";
    }"#;
    let p = PacParser::new(script).unwrap();
    assert_eq!(p.find_proxy("http://www.example.com").unwrap(), "T");
    assert_eq!(p.find_proxy("http://example.com").unwrap(), "F");
}

#[test]
fn conditional_operator_on_glob() {
    let script = r#"function FindProxyForURL(u, h) {
        return shExpMatch(u, "*.html") ? "T" : "F";
    }"#;
    let p = PacParser::new(script).unwrap();
    assert_eq!(p.find_proxy("http://x/y.html").unwrap(), "T");
    assert_eq!(p.find_proxy("http://x/y.htm").unwrap(), "F");
}

#[test]
fn multiplicative_operators() {
    assert_eq!(run("return \"\" + 7 * 6;", "http://h"), "42");
    assert_eq!(run("return \"\" + (2 + 3 * 4);", "http://h"), "14");
    assert_eq!(run("return \"\" + 10 / 3;", "http://h"), "3");
    assert_eq!(run("return \"\" + (0 - 7) / 2;", "http://h"), "-3");
    assert_eq!(run("return \"\" + 10 % 3;", "http://h"), "1");
    assert_eq!(run("return \"\" + (0 - 7) % 2;", "http://h"), "-1");
}

#[test]
fn division_by_zero_is_a_script_error() {
    let p = PacParser::new("function FindProxyForURL(u, h) { return 1 / 0; }").unwrap();
    assert!(p.find_proxy("http://h").is_err());
}
