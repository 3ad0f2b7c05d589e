use std::sync::Arc;

use serve_limit::middleware::logger::{
    logged_size, Logger, LoggerFinalizer, MethodLabel, RequestHead, RequestLog,
};
use serve_limit::middleware::text::{append_decimal, append_padded, parse_u64};
use serve_limit::middleware::{register_layer, server_header, LayerKind};

fn head(method: &str, query: Option<&str>, client: Option<&str>) -> RequestHead {
    RequestHead {
        method: method.to_string(),
        path: "/h/file".to_string(),
        query: query.map(|q| q.to_string()),
        version: "HTTP/1.1".to_string(),
        client: client.map(|c| c.to_string()),
    }
}

#[test]
fn numbers_in_decimal() {
    for n in [0, 7, 9, 10, 99, 100, 1_234_567_890, u64::MAX as u128, u128::MAX] {
        let mut out = "x".to_string();
        append_decimal(&mut out, n);
        assert_eq!(out, format!("x{}", n));
    }
}

#[test]
fn padding_counts_characters() {
    for text in ["", "abc", "äöü", "exactly eight", "12345678"] {
        let mut out = "<".to_string();
        append_padded(&mut out, text, 8);
        assert_eq!(out, format!("<{:8}", text));
    }
}

#[test]
fn parsing_is_that_of_std() {
    for text in [
        "", "+", "-", "0", "+0", "-0", "7", "+7", "007", "++7", "7+", " 7", "7 ", "1e3", "12a",
        "18446744073709551615", "18446744073709551616", "99999999999999999999",
        "00000000000000000000000000000042", "+18446744073709551615",
    ] {
        assert_eq!(parse_u64(text.as_bytes()), text.parse::<u64>().ok());
    }
    assert_eq!(parse_u64(&[0xff]), None);
}

#[test]
fn labels() {
    assert_eq!(head("GET", None, None).method_label(), MethodLabel::Get);
    assert_eq!(head("HEAD", None, None).method_label(), MethodLabel::Head);
    assert_eq!(head("POST", None, None).method_label(), MethodLabel::Other);
    assert_eq!(head("get", None, None).method_label(), MethodLabel::Other);
}

#[test]
fn request_lines() {
    assert_eq!(head("GET", None, None).request_line(), "GET /h/file HTTP/1.1");
    assert_eq!(head("GET", Some("a=b"), None).request_line(), "GET /h/file?a=b HTTP/1.1");
    assert_eq!(head("GET", Some(""), None).request_line(), "GET /h/file? HTTP/1.1");
}

#[test]
fn announced_sizes() {
    assert_eq!(logged_size(false, Some(b"1234")), 1234);
    assert_eq!(logged_size(true, Some(b"1234")), 0);
    assert_eq!(logged_size(false, None), 0);
    assert_eq!(logged_size(false, Some(b"many")), 0);
    assert_eq!(logged_size(false, Some(&[0x80])), 0);
}

#[test]
fn line_of_a_response() {
    let log = RequestLog::open(41, &head("GET", Some("q"), Some("10.0.0.1")));
    assert_eq!(log.count, 42);
    let (line, body) = log.respond(200, Some(b"1234"));
    assert_eq!(
        line,
        format!("{{{}/{:16} Code={} Byte={:<8} {}", 42, "10.0.0.1}", 200, 1234, "GET /h/file?q HTTP/1.1")
    );
    assert_eq!(line, "{42/10.0.0.1}        Code=200 Byte=1234     GET /h/file?q HTTP/1.1");
    assert_eq!((body.count, body.code, body.size, body.is_get), (42, 200, 0, true));
    assert_eq!(body.ip, "10.0.0.1");
}

#[test]
fn line_of_a_head_response() {
    let log = RequestLog::open(0, &head("HEAD", None, None));
    let (line, body) = log.respond(404, Some(b"99"));
    assert_eq!(line, "{1/-}               Code=404 Byte=0        HEAD /h/file HTTP/1.1");
    assert_eq!(body.response_size(), None);
}

#[test]
fn requests_are_numbered_from_one() {
    for before in 0..100u64 {
        let log = RequestLog::open(before, &head("GET", None, None));
        assert_eq!(log.count, before + 1);
        let (line, body) = log.respond(200, None);
        assert!(line.starts_with(&format!("{{{}/", before + 1)));
        assert!(body.finish(1, "0.00").starts_with(&format!("{{{}/", before + 1)));
    }
}

#[test]
fn counter_starts_again() {
    let log = RequestLog::open(u64::MAX, &head("GET", None, None));
    assert_eq!(log.count, 0);
}

#[test]
fn line_of_a_finished_body() {
    let mut body = LoggerFinalizer {
        count: 3,
        ip: "2001:db8::1234:5678".to_string(),
        code: 206,
        size: 0,
        is_get: true,
    };
    body.record(Some(1000));
    body.record(None);
    body.record(Some(500));
    assert_eq!(body.size, 1500);
    assert_eq!(body.response_size(), Some(1500));
    let rate = format!("{:.2}", 1500.0 / LoggerFinalizer::rate_millis(0) as f64);
    assert_eq!(
        body.finish(12, &rate),
        format!(
            "{{{}/{:16} Code={} Byte={:<8} Finished processing request in {}ms ({:.2} KB/s)",
            3, "2001:db8::1234:5678}", 206, 1500, 12, 1500.0
        )
    );
    assert_eq!(LoggerFinalizer::rate_millis(1), 1);
    assert_eq!(LoggerFinalizer::rate_millis(7), 7);
}

#[test]
fn middleware_shares_its_counter() {
    let metrics = Arc::new("metrics");
    let logger = Logger::new(metrics.clone());
    let first = logger.layer("first");
    let second = logger.clone().layer("second");
    let request = head("GET", None, None);
    assert_eq!(first.begin(&request).count, 1);
    assert_eq!(second.begin(&request).count, 2);
    assert_eq!(first.clone().begin(&request).count, 3);
    assert_eq!(first.service, "first");
    assert_eq!(*second.share_metrics(), "metrics");
    assert!(Arc::ptr_eq(&metrics, &first.share_metrics()));
    assert_eq!(Logger::new(metrics).layer(()).begin(&request).count, 1);
}

#[test]
fn layers_from_the_inside_out() {
    assert_eq!(register_layer(false), vec![LayerKind::Logger, LayerKind::ConnectionCounter]);
    assert_eq!(
        register_layer(true),
        vec![LayerKind::Logger, LayerKind::ConnectionCounter, LayerKind::DefaultHeaders]
    );
}

#[test]
fn server_header_names_the_version() {
    assert_eq!(server_header("1.6.4"), "Genetic Lifeform and Distributed Open Server 1.6.4");
}
