//! Tests of the HTTP exchange, the IP-echo reading and the DoH answer.

use gos::doh::{a_records, collect_addresses, endpoint, privacy_failure, query_path, DohAnswer, DohResponse};
use gos::net::{http_request, http_response_body, parse_ip_api, IpApiResponse, IP_API_HOST, IP_API_PATH};
use gos::settings::DohProvider;
use gos::types::GosError;

fn privacy_text(e: GosError) -> String {
    match e {
        GosError::Privacy(m) => m,
        other => panic!("expected a privacy error, got {:?}", other),
    }
}

#[test]
fn request_text_is_http_1_0_get() {
    assert_eq!(
        http_request(IP_API_HOST, IP_API_PATH, "*/*"),
        "GET /json/?fields=status,country,countryCode,query HTTP/1.0\r\nHost: ip-api.com\r\nUser-Agent: gos/0.1\r\nAccept: */*\r\nConnection: close\r\n\r\n"
    );
}

#[test]
fn body_follows_the_first_blank_line() {
    let raw = b"HTTP/1.0 200 OK\r\nContent-Type: application/json\r\n\r\n  {\"query\":\"1.2.3.4\"}\r\n\r\nmore\n";
    assert_eq!(http_response_body(raw), "{\"query\":\"1.2.3.4\"}\r\n\r\nmore");
    assert_eq!(http_response_body(b"HTTP/1.0 204 No Content\r\n"), "");
    assert_eq!(http_response_body(b"H\r\n\r\nab\xffcd "), "ab\u{FFFD}cd");
}

#[test]
fn ip_api_answer_is_read() {
    let ok = parse_ip_api(
        "{}",
        Ok(IpApiResponse { query: Some("9.9.9.9".into()), country: Some("Germany".into()), country_code: Some("DE".into()) }),
    )
    .unwrap();
    assert_eq!(ok.ip, "9.9.9.9");
    assert_eq!(ok.country.as_deref(), Some("Germany"));
    assert_eq!(ok.country_code.as_deref(), Some("DE"));

    let missing = parse_ip_api("{}", Ok(IpApiResponse { query: None, country: None, country_code: None }));
    assert_eq!(privacy_text(missing.unwrap_err()), "ip-api response had no IP");

    let body = "x".repeat(100);
    let bad = parse_ip_api(&body, Err("expected value at line 1 column 1".into()));
    assert_eq!(
        privacy_text(bad.unwrap_err()),
        format!("parse ip-api failed ({}): expected value at line 1 column 1", "x".repeat(80))
    );
    let short = parse_ip_api("<html>", Err("e".into()));
    assert_eq!(privacy_text(short.unwrap_err()), "parse ip-api failed (<html>): e");
}

#[test]
fn doh_endpoints_and_path() {
    let e = endpoint(DohProvider::Cloudflare);
    assert_eq!((e.ip, e.tls_name.as_str()), ([1, 1, 1, 1], "cloudflare-dns.com"));
    let e = endpoint(DohProvider::Quad9);
    assert_eq!((e.ip, e.tls_name.as_str()), ([9, 9, 9, 9], "dns.quad9.net"));
    let e = endpoint(DohProvider::Google);
    assert_eq!((e.ip, e.tls_name.as_str()), ([8, 8, 8, 8], "dns.google"));
    assert_eq!(query_path("example.com"), "/dns-query?name=example.com&type=A");
}

#[test]
fn doh_keeps_only_a_records() {
    let resp = DohResponse {
        answer: Some(vec![
            DohAnswer { rtype: 5, data: "alias.example.".into() },
            DohAnswer { rtype: 1, data: "93.184.215.14".into() },
            DohAnswer { rtype: 28, data: "2606:2800::1".into() },
            DohAnswer { rtype: 1, data: "93.184.215.15".into() },
        ]),
    };
    assert_eq!(a_records("{}", Ok(resp)).unwrap(), vec!["93.184.215.14", "93.184.215.15"]);
    assert!(a_records("{}", Ok(DohResponse { answer: None })).unwrap().is_empty());
    assert_eq!(privacy_text(a_records("nope", Err("bad".into())).unwrap_err()), "DoH parse (nope): bad");
}

#[test]
fn doh_needs_one_address() {
    assert_eq!(collect_addresses(vec![None, Some(1u32), None, Some(2)]).unwrap(), vec![1, 2]);
    assert_eq!(
        privacy_text(collect_addresses::<u32>(vec![None, None]).unwrap_err()),
        "DoH returned no A records"
    );
    assert!(collect_addresses::<u32>(Vec::new()).is_err());
    assert_eq!(privacy_text(privacy_failure("DoH connect", "refused")), "DoH connect: refused");
}
