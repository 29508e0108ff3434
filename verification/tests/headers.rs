use cran_proxy::headers::{
    is_hop_name, relay_headers, strip_hop_headers, try_relay_headers, try_strip_hop_headers,
    value_text, MAX_HEADERS,
};
use http::header::{HeaderName, HeaderValue};
use http::HeaderMap;

const DENIED: [&str; 8] = [
    "connection",
    "proxy-connection",
    "keep-alive",
    "transfer-encoding",
    "te",
    "upgrade",
    "trailer",
    "host",
];

fn add(map: &mut HeaderMap, name: &[u8], value: &[u8]) {
    map.append(
        HeaderName::from_bytes(name).unwrap(),
        HeaderValue::from_bytes(value).unwrap(),
    );
}

fn values(map: &HeaderMap, name: &str) -> Vec<Vec<u8>> {
    map.get_all(name).iter().map(|v| v.as_bytes().to_vec()).collect()
}

#[test]
fn strips_every_denied_name() {
    let mut map = HeaderMap::new();
    for name in DENIED {
        add(&mut map, name.as_bytes(), b"x");
    }
    strip_hop_headers(&mut map);
    assert_eq!(map.len(), 0);
}

#[test]
fn strips_whatever_the_casing() {
    let mut map = HeaderMap::new();
    add(&mut map, b"Connection", b"close");
    add(&mut map, b"KEEP-ALIVE", b"timeout=5");
    add(&mut map, b"Transfer-Encoding", b"chunked");
    add(&mut map, b"tE", b"trailers");
    add(&mut map, b"Host", b"example.org");
    add(&mut map, b"Proxy-Connection", b"keep-alive");
    add(&mut map, b"UpGrade", b"h2c");
    add(&mut map, b"TRAILER", b"Expires");
    add(&mut map, b"Accept", b"*/*");
    strip_hop_headers(&mut map);
    for name in DENIED {
        assert!(!map.contains_key(name), "{} is still there", name);
    }
    assert_eq!(map.len(), 1);
    assert_eq!(values(&map, "accept"), vec![b"*/*".to_vec()]);
}

#[test]
fn keeps_other_headers_with_duplicates_in_order() {
    let mut map = HeaderMap::new();
    add(&mut map, b"set-cookie", b"a=1");
    add(&mut map, b"connection", b"close");
    add(&mut map, b"cache-control", b"max-age=3600");
    add(&mut map, b"set-cookie", b"b=2");
    add(&mut map, b"connection", b"keep-alive");
    add(&mut map, b"x-custom", b"\xfe\xff");
    add(&mut map, b"set-cookie", b"c=3");
    add(&mut map, b"host", b"h");
    strip_hop_headers(&mut map);
    assert_eq!(
        values(&map, "set-cookie"),
        vec![b"a=1".to_vec(), b"b=2".to_vec(), b"c=3".to_vec()]
    );
    assert_eq!(values(&map, "cache-control"), vec![b"max-age=3600".to_vec()]);
    assert_eq!(values(&map, "x-custom"), vec![b"\xfe\xff".to_vec()]);
    assert_eq!(map.len(), 5);
    assert_eq!(map.keys_len(), 3);
}

#[test]
fn leaves_a_clean_set_alone() {
    let mut map = HeaderMap::new();
    add(&mut map, b"content-type", b"application/gzip");
    add(&mut map, b"etag", b"\"abc\"");
    let before = map.clone();
    strip_hop_headers(&mut map);
    assert_eq!(map, before);
}

#[test]
fn similar_names_are_kept() {
    let mut map = HeaderMap::new();
    add(&mut map, b"connection-id", b"1");
    add(&mut map, b"hosts", b"2");
    add(&mut map, b"x-upgrade", b"3");
    add(&mut map, b"tea", b"4");
    strip_hop_headers(&mut map);
    assert_eq!(map.len(), 4);
}

#[test]
fn empty_set_stays_empty() {
    let mut map = HeaderMap::new();
    strip_hop_headers(&mut map);
    assert!(map.is_empty());
}

#[test]
fn relay_copies_then_strips() {
    let mut upstream = HeaderMap::new();
    add(&mut upstream, b"content-length", b"42");
    add(&mut upstream, b"transfer-encoding", b"chunked");
    add(&mut upstream, b"vary", b"accept");
    add(&mut upstream, b"vary", b"accept-encoding");
    add(&mut upstream, b"connection", b"close");
    let kept = upstream.clone();
    let out = relay_headers(&upstream);
    assert_eq!(upstream, kept);
    assert_eq!(out.len(), 3);
    assert_eq!(values(&out, "content-length"), vec![b"42".to_vec()]);
    assert_eq!(
        values(&out, "vary"),
        vec![b"accept".to_vec(), b"accept-encoding".to_vec()]
    );
    assert!(!out.contains_key("transfer-encoding"));
    assert!(!out.contains_key("connection"));
}

#[test]
fn value_text_of_visible_ascii() {
    assert_eq!(value_text(b"curl/8.5.0"), Some(String::from("curl/8.5.0")));
    assert_eq!(value_text(b""), Some(String::new()));
    assert_eq!(value_text(b"a\tb ~"), Some(String::from("a\tb ~")));
}

#[test]
fn value_text_rejects_other_bytes() {
    assert_eq!(value_text(b"caf\xc3\xa9"), None);
    assert_eq!(value_text(b"\x7f"), None);
    assert_eq!(value_text(b"a\x1fb"), None);
    assert_eq!(value_text(b"ok\xff"), None);
}

#[test]
fn value_text_agrees_with_header_value() {
    for byte in 0u8..=255 {
        let raw = [b'a', byte, b'z'];
        if let Ok(value) = HeaderValue::from_bytes(&raw) {
            assert_eq!(
                value_text(&raw),
                value.to_str().ok().map(String::from),
                "byte {}",
                byte
            );
        }
    }
}

fn set(pairs: &[(&str, &str)]) -> HeaderMap {
    let mut map = HeaderMap::new();
    for (name, value) in pairs {
        add(&mut map, name.as_bytes(), value.as_bytes());
    }
    map
}

fn listed(map: &HeaderMap) -> Vec<(String, String)> {
    map.iter()
        .map(|(k, v)| (k.as_str().to_owned(), String::from_utf8(v.as_bytes().to_vec()).unwrap()))
        .collect()
}

fn pairs(list: &[(&str, &str)]) -> Vec<(String, String)> {
    list.iter().map(|(n, v)| (n.to_string(), v.to_string())).collect()
}

#[test]
fn remaining_headers_keep_their_order() {
    let mut map = set(&[("Connection", "close"), ("accept", "a"), ("x-b", "1")]);
    strip_hop_headers(&mut map);
    assert_eq!(listed(&map), pairs(&[("accept", "a"), ("x-b", "1")]));
}

#[test]
fn twelve_headers_of_which_four_stay() {
    let mut map = set(&[
        ("accept", "a"),
        ("accept", "b"),
        ("x-forwarded-host", "h"),
        ("upgrade-insecure-requests", "1"),
        ("Host", "h"),
        ("TRAILER", "t"),
        ("Upgrade", "u"),
        ("TE", "t"),
        ("Transfer-Encoding", "c"),
        ("Keep-Alive", "k"),
        ("Proxy-Connection", "p"),
        ("Connection", "c"),
    ]);
    strip_hop_headers(&mut map);
    assert_eq!(
        listed(&map),
        pairs(&[
            ("accept", "a"),
            ("accept", "b"),
            ("x-forwarded-host", "h"),
            ("upgrade-insecure-requests", "1"),
        ])
    );
}

#[test]
fn denied_names_between_the_others() {
    let mut map = set(&[
        ("host", "h"),
        ("a", "1"),
        ("te", "t"),
        ("b", "2"),
        ("connection", "c"),
        ("c", "3"),
        ("upgrade", "u"),
        ("d", "4"),
        ("trailer", "x"),
        ("e", "5"),
    ]);
    strip_hop_headers(&mut map);
    assert_eq!(
        listed(&map),
        pairs(&[("a", "1"), ("b", "2"), ("c", "3"), ("d", "4"), ("e", "5")])
    );
}

#[test]
fn five_clean_headers_stay_as_listed() {
    let list = [
        ("authorization", "t"),
        ("cookie", "a=1"),
        ("content-length", "3"),
        ("range", "bytes=0-9"),
        ("x-note", "host"),
    ];
    let mut map = set(&list);
    strip_hop_headers(&mut map);
    assert_eq!(listed(&map), pairs(&list));
}

#[test]
fn second_pass_changes_nothing() {
    let mut map = set(&[
        ("Connection", "close"),
        ("accept", "a"),
        ("host", "h"),
        ("x-b", "1"),
        ("accept", "b"),
        ("te", "t"),
    ]);
    strip_hop_headers(&mut map);
    let once = listed(&map);
    assert_eq!(once, pairs(&[("accept", "a"), ("accept", "b"), ("x-b", "1")]));
    strip_hop_headers(&mut map);
    assert_eq!(listed(&map), once);
}

#[test]
fn relay_keeps_the_upstream_order() {
    let upstream = set(&[
        ("transfer-encoding", "chunked"),
        ("content-type", "application/gzip"),
        ("connection", "keep-alive"),
        ("etag", "\"x\""),
        ("set-cookie", "a=1"),
        ("set-cookie", "b=2"),
        ("keep-alive", "timeout=5"),
        ("last-modified", "yesterday"),
    ]);
    let out = relay_headers(&upstream);
    assert_eq!(
        listed(&out),
        pairs(&[
            ("content-type", "application/gzip"),
            ("etag", "\"x\""),
            ("set-cookie", "a=1"),
            ("set-cookie", "b=2"),
            ("last-modified", "yesterday"),
        ])
    );
    assert_eq!(upstream.len(), 8);
}

#[test]
fn sensitive_values_stay_sensitive() {
    let mut map = HeaderMap::new();
    let mut secret = HeaderValue::from_static("token");
    secret.set_sensitive(true);
    map.append("connection", HeaderValue::from_static("close"));
    map.append("authorization", secret);
    map.append("accept", HeaderValue::from_static("*/*"));
    strip_hop_headers(&mut map);
    assert!(map.get("authorization").unwrap().is_sensitive());
    assert!(!map.get("accept").unwrap().is_sensitive());
    assert_eq!(listed(&map), pairs(&[("authorization", "token"), ("accept", "*/*")]));
}

#[test]
fn hop_names_in_any_casing() {
    for name in ["connection", "Connection", "CONNECTION", "Proxy-Connection", "keep-ALIVE",
        "Transfer-Encoding", "te", "TE", "Te", "Upgrade", "TRAILER", "Host", "hOsT"]
    {
        assert!(is_hop_name(name), "{}", name);
    }
}

#[test]
fn other_names_are_no_hop_names() {
    for name in ["", "accept", "hosts", "x-host", "connection-id", "t", "tee", "upgrade-insecure-requests",
        "x-forwarded-host", "keep_alive", "trailers", "h\u{f6}st", "\u{212a}eep-alive", "content-length"]
    {
        assert!(!is_hop_name(name), "{}", name);
    }
}

fn many(count: usize) -> HeaderMap {
    let mut map = HeaderMap::new();
    for i in 0..count {
        let name = if i % 2 == 0 { "x-even" } else { "host" };
        map.append(name, HeaderValue::from_str(&i.to_string()).unwrap());
    }
    map
}

#[test]
fn largest_set_is_sanitized() {
    let mut map = many(MAX_HEADERS);
    assert!(try_strip_hop_headers(&mut map));
    assert_eq!(map.len(), MAX_HEADERS / 2);
    assert_eq!(map.keys_len(), 1);
    let values: Vec<String> = listed(&map).into_iter().map(|(_, v)| v).collect();
    let expected: Vec<String> = (0..MAX_HEADERS).step_by(2).map(|i| i.to_string()).collect();
    assert_eq!(values, expected);
}

#[test]
fn larger_set_is_left_alone() {
    let mut map = many(MAX_HEADERS + 1);
    let before = map.clone();
    assert!(!try_strip_hop_headers(&mut map));
    assert_eq!(map, before);
    assert!(try_relay_headers(&before).is_none());
}

#[test]
fn many_distinct_names_keep_their_order() {
    let mut map = HeaderMap::new();
    let mut expected = Vec::new();
    for i in 0..MAX_HEADERS {
        let name = format!("x-{}", i);
        map.append(
            HeaderName::from_bytes(name.as_bytes()).unwrap(),
            HeaderValue::from_static("v"),
        );
        expected.push((name, String::from("v")));
    }
    assert!(try_strip_hop_headers(&mut map));
    assert_eq!(listed(&map), expected);
}

#[test]
fn try_variants_agree_with_the_plain_ones() {
    let upstream = set(&[("host", "h"), ("vary", "a"), ("Connection", "c"), ("vary", "b")]);
    let mut copy = upstream.clone();
    assert!(try_strip_hop_headers(&mut copy));
    assert_eq!(listed(&copy), pairs(&[("vary", "a"), ("vary", "b")]));
    let out = try_relay_headers(&upstream).unwrap();
    assert_eq!(listed(&out), listed(&copy));
}

#[test]
fn limit_on_headers() {
    assert_eq!(MAX_HEADERS, 4096);
}
