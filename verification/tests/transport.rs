use ctbox::error::Kind;
use ctbox::transport::{
    classify, deliver, params_fit, GatewayRequest, RawResponse, CALLBACK, ENTRANCE, STATUS_OK,
};

#[test]
fn a_new_request_names_the_callback() {
    let request = GatewayRequest::new("/drcom/logout");
    assert_eq!(request.node, "/drcom/logout");
    assert_eq!(request.params, vec![("callback".to_string(), CALLBACK.to_string())]);
}

#[test]
fn parameters_keep_the_order_in_which_they_were_added() {
    let request = GatewayRequest::new("/n").param("z", "1").param("a", "2").param("m", "3");
    let keys: Vec<&str> = request.params.iter().map(|pair| pair.0.as_str()).collect();
    assert_eq!(keys, vec!["callback", "z", "a", "m"]);
    assert_eq!(
        request.url().unwrap(),
        format!("{}/n?callback=ctbox&z=1&a=2&m=3", ENTRANCE)
    );
}

#[test]
fn url_joins_the_node_to_the_entrance() {
    let request = GatewayRequest::new("/drcom/logout");
    assert_eq!(
        request.url().unwrap(),
        "http://192.168.1.91/drcom/logout?callback=ctbox"
    );
}

#[test]
fn url_encodes_reserved_characters_in_values() {
    let request = GatewayRequest::new("/n").param("DDDDD", "a b&c=d").param("upass", "p+1/%?#é");
    assert_eq!(
        request.url().unwrap(),
        "http://192.168.1.91/n?callback=ctbox&DDDDD=a+b%26c%3Dd&upass=p%2B1%2F%25%3F%23%C3%A9"
    );
}

#[test]
fn url_keeps_a_parameter_that_is_given_twice() {
    let request = GatewayRequest::new("/n").param("k", "1").param("k", "2");
    assert_eq!(request.url().unwrap(), "http://192.168.1.91/n?callback=ctbox&k=1&k=2");
}

#[test]
fn url_agrees_with_the_url_crate() {
    let mut expected = url::Url::parse(ENTRANCE).unwrap().join("/drcom/login").unwrap();
    expected
        .query_pairs_mut()
        .append_pair("callback", CALLBACK)
        .append_pair("DDDDD", "a 1")
        .append_pair("upass", "p&1")
        .finish();
    let request = GatewayRequest::new("/drcom/login").param("DDDDD", "a 1").param("upass", "p&1");
    assert_eq!(request.url().unwrap(), expected.as_str());
}

#[test]
fn an_unreached_gateway_is_a_request_failure_without_status() {
    let e = classify(None).unwrap_err();
    assert_eq!(e.kind, Kind::Request);
    assert_eq!(e.status, None);
    assert_eq!(e.detail, None);
    assert_eq!(e.kind(), Kind::Request);
    assert_eq!(e.status(), None);
}

#[test]
fn a_status_other_than_200_is_a_request_failure_with_that_status() {
    for status in [0u16, 199, 201, 204, 301, 404, 500, 503, 65535] {
        let with_body = classify(Some(RawResponse { status, body: Some("ctbox({})".to_string()) }));
        let e = with_body.unwrap_err();
        assert_eq!(e.kind, Kind::Request);
        assert_eq!(e.status, Some(status));
        assert_eq!(e.detail, Some("ctbox({})".to_string()));
        let without = classify(Some(RawResponse { status, body: None })).unwrap_err();
        assert_eq!(without.kind, Kind::Request);
        assert_eq!(without.status, Some(status));
        assert_eq!(without.detail, None);
    }
}

#[test]
fn status_200_gives_the_body_as_it_came() {
    let body = classify(Some(RawResponse { status: STATUS_OK, body: Some(" ctbox( {} ) \n".to_string()) }));
    assert_eq!(body.unwrap(), " ctbox( {} ) \n");
}

#[test]
fn status_200_without_a_readable_body_is_a_request_failure() {
    let e = classify(Some(RawResponse { status: 200, body: None })).unwrap_err();
    assert_eq!(e.kind, Kind::Request);
    assert_eq!(e.status, None);
    assert_eq!(e.detail, None);
}

#[test]
fn deliver_strips_the_envelope_of_an_accepted_body() {
    let inner = deliver(Some(RawResponse { status: 200, body: Some("ctbox({\"a\":1})".to_string()) }));
    assert_eq!(inner.unwrap(), "{\"a\":1}");
    let plain = deliver(Some(RawResponse { status: 200, body: Some("other({\"a\":1})".to_string()) }));
    assert_eq!(plain.unwrap(), "other({\"a\":1})");
    let e = deliver(Some(RawResponse { status: 500, body: Some("ctbox({\"a\":1})".to_string()) })).unwrap_err();
    assert_eq!(e.kind, Kind::Request);
    assert_eq!(e.status, Some(500));
    assert_eq!(e.detail, Some("ctbox({\"a\":1})".to_string()));
}

#[test]
fn url_puts_the_query_before_a_fragment_of_the_node() {
    let request = GatewayRequest::new("/n#f").param("a", "1");
    assert_eq!(request.url().unwrap(), "http://192.168.1.91/n?callback=ctbox&a=1#f");
}

#[test]
fn url_adds_to_a_query_that_the_node_brings() {
    let request = GatewayRequest::new("/n?x=1").param("a", "1");
    assert_eq!(request.url().unwrap(), "http://192.168.1.91/n?x=1&callback=ctbox&a=1");
    let empty = GatewayRequest::new("/n?").param("a", "1");
    assert_eq!(empty.url().unwrap(), "http://192.168.1.91/n?callback=ctbox&a=1");
}

#[test]
fn url_puts_the_query_before_a_fragment_that_holds_marks_of_its_own() {
    let request = GatewayRequest::new("/n?x=1#f#g?h").param("a", "1");
    assert_eq!(request.url().unwrap(), "http://192.168.1.91/n?x=1&callback=ctbox&a=1#f#g?h");
    let bare = GatewayRequest::new("/n?#").param("a", "1");
    assert_eq!(bare.url().unwrap(), "http://192.168.1.91/n?callback=ctbox&a=1#");
}

#[test]
fn url_without_parameters_begins_an_empty_query() {
    let request = GatewayRequest { node: "/drcom/login".to_string(), params: Vec::new() };
    assert_eq!(request.url().unwrap(), "http://192.168.1.91/drcom/login?");
    let queried = GatewayRequest { node: "/n?x=1#f".to_string(), params: Vec::new() };
    assert_eq!(queried.url().unwrap(), "http://192.168.1.91/n?x=1#f");
}

#[test]
fn url_of_a_node_that_is_refused_is_none() {
    assert_eq!(GatewayRequest::new("http://[").url(), None);
    assert_eq!(GatewayRequest::new("http://[").param("a", "1").url(), None);
}

#[test]
fn url_writes_the_node_as_the_url_crate_reads_it() {
    let request = GatewayRequest::new("/a b/../c d");
    assert_eq!(request.url().unwrap(), "http://192.168.1.91/c%20d?callback=ctbox");
    let elsewhere = GatewayRequest::new("HTTP://H:80/p");
    assert_eq!(elsewhere.url().unwrap(), "http://h/p?callback=ctbox");
}

#[test]
fn url_takes_an_empty_key_and_an_empty_value() {
    let request = GatewayRequest { node: "/n".to_string(), params: Vec::new() };
    assert_eq!(request.param("", "").url().unwrap(), "http://192.168.1.91/n?=");
    let two = GatewayRequest { node: "/n".to_string(), params: Vec::new() };
    assert_eq!(two.param("", "").param("", "").url().unwrap(), "http://192.168.1.91/n?=&=");
}

#[test]
fn url_keeps_letters_digits_and_four_marks_and_encodes_every_other_byte() {
    for byte in 0u8..128 {
        let c = byte as char;
        let expected = if c.is_ascii_alphanumeric() || c == '*' || c == '-' || c == '.' || c == '_' {
            c.to_string()
        } else if c == ' ' {
            "+".to_string()
        } else {
            format!("%{:02X}", byte)
        };
        let text = c.to_string();
        assert_eq!(
            GatewayRequest::new("/n").param(&text, &text).url().unwrap(),
            format!("http://192.168.1.91/n?callback=ctbox&{}={}", expected, expected)
        );
    }
}

#[test]
fn url_encodes_the_bytes_of_other_characters_in_utf8() {
    let request = GatewayRequest::new("/n")
        .param("k", "\u{e9}")
        .param("\u{20ac}", "a b")
        .param("\u{1f600}", "\u{7f}\u{80}");
    assert_eq!(
        request.url().unwrap(),
        "http://192.168.1.91/n?callback=ctbox&k=%C3%A9&%E2%82%AC=a+b&%F0%9F%98%80=%7F%C2%80"
    );
}

fn pairs(list: &[(&str, &str)]) -> Vec<(String, String)> {
    list.iter().map(|pair| (pair.0.to_string(), pair.1.to_string())).collect()
}

#[test]
fn params_fit_up_to_the_32_bit_count() {
    let most = u32::MAX as usize;
    let none = pairs(&[]);
    assert!(params_fit(0, &none));
    assert!(params_fit(most - 1, &none));
    assert!(!params_fit(most, &none));
    assert!(!params_fit(most + 1, &none));
    assert!(!params_fit(usize::MAX, &none));
    let one = pairs(&[("k", "v")]);
    assert!(params_fit(31, &one));
    assert!(params_fit(most - 9, &one));
    assert!(!params_fit(most - 8, &one));
    let empty = pairs(&[("", "")]);
    assert!(params_fit(most - 3, &empty));
    assert!(!params_fit(most - 2, &empty));
}

#[test]
fn params_fit_counts_every_pair_and_the_bytes_of_each_character() {
    let most = u32::MAX as usize;
    let three = pairs(&[("callback", "ctbox"), ("DDDDD", "a1"), ("upass", "p1")]);
    let room = (3 * 8 + 3 * 5 + 2) + (3 * 5 + 3 * 2 + 2) + (3 * 5 + 3 * 2 + 2);
    assert!(params_fit(most - 1 - room, &three));
    assert!(!params_fit(most - room, &three));
    let wide = pairs(&[("\u{e9}", "\u{1f600}")]);
    assert!(params_fit(most - 1 - (3 * 2 + 3 * 4 + 2), &wide));
    assert!(!params_fit(most - (3 * 2 + 3 * 4 + 2), &wide));
}
