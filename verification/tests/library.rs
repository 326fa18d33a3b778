use idyllic::Hit;
use idyllic::Ipv4;
use idyllic::app::App;
use idyllic::event::AppEvent;
use idyllic::event::classify_key;
use idyllic::numbers::parse_ipv4_str;
use idyllic::numbers::parse_u64_str;
use idyllic::parse::ParseError;
use idyllic::parse::compile;
use idyllic::parse::extract;
use idyllic::parse::ingest;
use idyllic::parse::validate;
use idyllic::registry::Token;

const COMMON_TEMPLATE: &str = "{{addr}} - {{user}} [{{time}}] \"{{request}}\" {{status}} {{bytes}} \"{{referrer}}\" \"{{user_agent}}\"";
const COMMON_LINE: &str = "178.128.94.113 - - [04/Oct/2024:00:00:18 +0000] \"GET /v1-health HTTP/1.1\" 200 51 \"-\" \"DigitalOcean Uptime Probe 0.22.0 (https://digitalocean.com)\"";

#[test]
fn build_regex_case_1() {
    let pattern = "{{addr}} - {{user}} [{{time}}] \"{{request}}\" {{status}} {{bytes}} \"{{referrer}}\" \"{{user_agent}}\"";
    let compiled = compile(pattern).unwrap();
    let expected = r#"(?<addr>\d{1,3}\.\d{1,3}\.\d{1,3}\.\d{1,3})\s-\s(?<user>\S*)\s\[(?<time>\d\d\/\w*\/\d{4}:\d\d:\d\d:\d\d\s\+\d{4})\]\s\"(?<request>GET\s\S+\s\S+)\"\s(?<status>\d{3})\s(?<bytes>\d+)\s\"(?<referrer>\S+)\"\s\"(?<user_agent>[\w\d\s\.\(\):;\/\/]*)\""#;

    let got: String = compiled.source().iter().collect();
    assert_eq!(got, expected);
}

#[test]
fn build_regex_case_2() {
    let pattern = "[{{time}}] {{user}} {{addr}} \"{{request}}\" {{status}} - {{bytes}} \"{{referrer}}\" \"{{user_agent}}\"";
    let compiled = compile(pattern).unwrap();
    let expected = r#"\[(?<time>\d\d\/\w*\/\d{4}:\d\d:\d\d:\d\d\s\+\d{4})\]\s(?<user>\S*)\s(?<addr>\d{1,3}\.\d{1,3}\.\d{1,3}\.\d{1,3})\s\"(?<request>GET\s\S+\s\S+)\"\s(?<status>\d{3})\s-\s(?<bytes>\d+)\s\"(?<referrer>\S+)\"\s\"(?<user_agent>[\w\d\s\.\(\):;\/\/]*)\""#;

    let got: String = compiled.source().iter().collect();
    assert_eq!(got, expected);
}

#[test]
fn round_trip_extraction() {
    let compiled = compile(COMMON_TEMPLATE).unwrap();
    let hit = extract(COMMON_LINE, &compiled).unwrap();
    assert_eq!(hit, Hit { addr: Ipv4 { a: 178, b: 128, c: 94, d: 113 }, status: 200 });
}

#[test]
fn token_order_independence() {
    let reordered = "[{{time}}] {{user}} {{addr}} \"{{request}}\" {{status}} - {{bytes}} \"{{referrer}}\" \"{{user_agent}}\"";
    let reordered_line = "[04/Oct/2024:00:00:18 +0000] - 178.128.94.113 \"GET /v1-health HTTP/1.1\" 200 - 51 \"-\" \"DigitalOcean Uptime Probe 0.22.0 (https://digitalocean.com)\"";

    let c1 = compile(COMMON_TEMPLATE).unwrap();
    let c2 = compile(reordered).unwrap();
    let h1 = extract(COMMON_LINE, &c1).unwrap();
    let h2 = extract(reordered_line, &c2).unwrap();
    assert_eq!(h1, h2);
}

#[test]
fn captured_tokens_in_template_order() {
    let compiled = compile(COMMON_TEMPLATE).unwrap();
    assert_eq!(
        compiled.tokens(),
        vec![
            Token::Addr,
            Token::User,
            Token::Time,
            Token::Request,
            Token::Status,
            Token::Bytes,
            Token::Referrer,
            Token::UserAgent,
        ]
    );
}

#[test]
fn fail_fast_on_missing_status() {
    let template = "{{addr}} - {{user}} [{{time}}] \"{{request}}\" {{bytes}} \"{{referrer}}\" \"{{user_agent}}\"";
    let err = match validate(template) {
        Err(e) => e,
        Ok(()) => panic!("expected a validation error"),
    };
    assert_eq!(
        err,
        ParseError::MissingTokenInPattern("{{status}}".to_string(), template.to_string())
    );
    let err = match compile(template) {
        Err(e) => e,
        Ok(_) => panic!("expected a compile error"),
    };
    assert_eq!(
        err,
        ParseError::MissingTokenInPattern("{{status}}".to_string(), template.to_string())
    );
}

#[test]
fn empty_template_missing_addr_first() {
    let err = match validate("") {
        Err(e) => e,
        Ok(()) => panic!("expected a validation error"),
    };
    assert_eq!(err, ParseError::MissingTokenInPattern("{{addr}}".to_string(), String::new()));
}

#[test]
fn unknown_placeholder_is_a_compile_error() {
    let template = "{{addr}} {{bogus}} [{{time}}] \"{{request}}\" {{status}} {{bytes}} \"{{user_agent}}\"";
    let err = match compile(template) {
        Err(e) => e,
        Ok(_) => panic!("expected a compile error"),
    };
    assert_eq!(err, ParseError::UnknownToken("bogus".to_string()));
}

#[test]
fn duplicate_placeholder_is_a_syntax_error() {
    let template = "{{addr}} {{addr}} [{{time}}] \"{{request}}\" {{status}} {{bytes}} \"{{user_agent}}\"";
    let err = match compile(template) {
        Err(e) => e,
        Ok(_) => panic!("expected a compile error"),
    };
    assert!(matches!(err, ParseError::Syntax(_)));
}

#[test]
fn literal_brackets_quotes_and_spaces_match_themselves() {
    let template = "{{addr}} [static] \"{{request}}\" [{{time}}] {{status}} {{bytes}} \"{{user_agent}}\"";
    let compiled = compile(template).unwrap();

    let good = "10.0.0.1 [static] \"GET /x HTTP/1.1\" [04/Oct/2024:00:00:18 +0000] 404 0 \"agent 1.0\"";
    let hit = extract(good, &compiled).unwrap();
    assert_eq!(hit, Hit { addr: Ipv4 { a: 10, b: 0, c: 0, d: 1 }, status: 404 });

    // The bracket must match itself and nothing else: the same line with the
    // opening bracket replaced must be refused.
    let bad = "10.0.0.1 Xstatic] \"GET /x HTTP/1.1\" [04/Oct/2024:00:00:18 +0000] 404 0 \"agent 1.0\"";
    let err = extract(bad, &compiled).unwrap_err();
    assert_eq!(err, ParseError::NoMatch);
}

#[test]
fn partial_failure_isolation() {
    let compiled = compile(COMMON_TEMPLATE).unwrap();
    let ok_line = COMMON_LINE.to_string();
    let lines = vec![ok_line.clone(), "not a log line".to_string(), ok_line.clone()];
    let (hits, errors) = ingest(&lines, &compiled);
    assert_eq!(hits.len(), 2);
    assert_eq!(errors.len(), 1);
    assert_eq!(errors[0].0, 1);
    assert_eq!(errors[0].1, ParseError::NoMatch);
}

#[test]
fn ingest_keeps_input_order() {
    let compiled = compile(COMMON_TEMPLATE).unwrap();
    let line_two = "10.1.2.3 - - [04/Oct/2024:00:00:19 +0000] \"GET /other HTTP/1.1\" 503 12 \"-\" \"probe\"";
    let lines = vec![COMMON_LINE.to_string(), line_two.to_string()];
    let (hits, errors) = ingest(&lines, &compiled);
    assert!(errors.is_empty());
    assert_eq!(hits[0].status, 200);
    assert_eq!(hits[1].status, 503);
    assert_eq!(hits[1].addr, Ipv4 { a: 10, b: 1, c: 2, d: 3 });
}

#[test]
fn invalid_address_field_is_reported_not_zeroed() {
    let compiled = compile(COMMON_TEMPLATE).unwrap();
    let line = "999.888.777.666 - - [04/Oct/2024:00:00:18 +0000] \"GET /v1-health HTTP/1.1\" 200 51 \"-\" \"probe\"";
    let err = extract(line, &compiled).unwrap_err();
    assert_eq!(
        err,
        ParseError::InvalidValue("addr".to_string(), "999.888.777.666".to_string())
    );
}

#[test]
fn non_numeric_status_shape_never_matches() {
    let compiled = compile(COMMON_TEMPLATE).unwrap();
    let line = "178.128.94.113 - - [04/Oct/2024:00:00:18 +0000] \"GET /v1-health HTTP/1.1\" 2X0 51 \"-\" \"probe\"";
    let err = extract(line, &compiled).unwrap_err();
    assert_eq!(err, ParseError::NoMatch);
}

#[test]
fn decimal_parser_exact_values() {
    assert_eq!(parse_u64_str("200"), Some(200));
    assert_eq!(parse_u64_str("007"), Some(7));
    assert_eq!(parse_u64_str("18446744073709551615"), Some(u64::MAX));
    assert_eq!(parse_u64_str("18446744073709551616"), None);
    assert_eq!(parse_u64_str(""), None);
    assert_eq!(parse_u64_str("12a"), None);
}

#[test]
fn address_parser_exact_values() {
    assert_eq!(
        parse_ipv4_str("178.128.94.113"),
        Some(Ipv4 { a: 178, b: 128, c: 94, d: 113 })
    );
    assert_eq!(parse_ipv4_str("0.0.0.0"), Some(Ipv4 { a: 0, b: 0, c: 0, d: 0 }));
    assert_eq!(
        parse_ipv4_str("255.255.255.255"),
        Some(Ipv4 { a: 255, b: 255, c: 255, d: 255 })
    );
    assert_eq!(parse_ipv4_str("256.1.1.1"), None);
    assert_eq!(parse_ipv4_str("01.2.3.4"), None);
    assert_eq!(parse_ipv4_str("1.2.3"), None);
    assert_eq!(parse_ipv4_str("1.2.3.4.5"), None);
    assert_eq!(parse_ipv4_str("1.2..3"), None);
    assert_eq!(parse_ipv4_str(""), None);
}

#[test]
fn key_dispatch_only_q_quits() {
    assert_eq!(classify_key(Some('q')), AppEvent::Quit);
    assert_eq!(classify_key(Some('x')), AppEvent::Nothing);
    assert_eq!(classify_key(None), AppEvent::Nothing);
}

#[test]
fn app_quit_latches() {
    let mut app = App::new("some log text");
    assert!(!app.quit);
    app.update(AppEvent::Nothing);
    assert!(!app.quit);
    app.update(AppEvent::Quit);
    assert!(app.quit);
    app.update(AppEvent::Nothing);
    assert!(app.quit);
    assert_eq!(app.scroll_state, 0);
    assert_eq!(app.log, "some log text");
}

#[test]
fn optional_tokens_may_be_absent() {
    let template = "{{addr}} [{{time}}] \"{{request}}\" {{status}} {{bytes}} \"{{user_agent}}\"";
    assert!(validate(template).is_ok());
    let compiled = compile(template).unwrap();
    let line = "10.0.0.1 [04/Oct/2024:00:00:18 +0000] \"GET /x HTTP/1.1\" 200 7 \"ua\"";
    let hit = extract(line, &compiled).unwrap();
    assert_eq!(hit, Hit { addr: Ipv4 { a: 10, b: 0, c: 0, d: 1 }, status: 200 });
}

#[test]
fn ingest_empty_batch() {
    let compiled = compile(COMMON_TEMPLATE).unwrap();
    let lines: Vec<String> = vec![];
    let (hits, errors) = ingest(&lines, &compiled);
    assert!(hits.is_empty());
    assert!(errors.is_empty());
}
