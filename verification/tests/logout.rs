use ctbox::error::Kind;
use ctbox::logout::{assemble, decode, logout, request, Fields, NODE};
use ctbox::transport::RawResponse;

fn answered(status: u16, body: &str) -> Option<RawResponse> {
    Some(RawResponse { status, body: Some(body.to_string()) })
}

fn all_fields() -> Fields {
    Fields {
        result: Some(1),
        ss5: Some("a".to_string()),
        ss6: Some("b".to_string()),
        ss4: Some("c".to_string()),
        time: Some(12),
        flow: Some("3.5".to_string()),
        uid: Some("u".to_string()),
    }
}

#[test]
fn logout_request_carries_the_callback_alone() {
    let made = request();
    assert_eq!(made.node, NODE);
    assert_eq!(made.params, vec![("callback".to_string(), "ctbox".to_string())]);
    assert_eq!(made.url().unwrap(), "http://192.168.1.91/drcom/logout?callback=ctbox");
}

#[test]
fn logout_against_a_gateway_that_accepts() {
    let response = logout(answered(
        200,
        "ctbox({\"result\":1,\"ss5\":\"10.0.0.5\",\"ss6\":\"10.0.0.6\",\"ss4\":\"10.0.0.4\",\"time\":12,\"flow\":3.5,\"uid\":\"u1\"})",
    ))
    .unwrap();
    assert_eq!(response.result, 1);
    assert_eq!(response.ss5, "10.0.0.5");
    assert_eq!(response.ss6, "10.0.0.6");
    assert_eq!(response.ss4, "10.0.0.4");
    assert_eq!(response.time, 12);
    assert_eq!(response.flow, "3.5");
    assert_eq!(response.flow.parse::<f64>().unwrap(), 3.5);
    assert_eq!(response.uid, "u1");
}

#[test]
fn logout_keeps_the_volume_as_decimal_text() {
    let whole = decode(
        "{\"result\":1,\"ss5\":\"\",\"ss6\":\"\",\"ss4\":\"\",\"time\":0,\"flow\":1024,\"uid\":\"\"}",
    )
    .unwrap();
    assert_eq!(whole.flow, "1024");
    let small = decode(
        "{\"result\":1,\"ss5\":\"\",\"ss6\":\"\",\"ss4\":\"\",\"time\":0,\"flow\":-0.125,\"uid\":\"\"}",
    )
    .unwrap();
    assert_eq!(small.flow, "-0.125");
    assert_eq!(small.flow.parse::<f64>().unwrap(), -0.125);
}

#[test]
fn logout_with_a_mistyped_member_is_a_parse_failure() {
    let payloads = vec![
        "{\"result\":1,\"ss5\":\"\",\"ss6\":\"\",\"ss4\":\"\",\"time\":0,\"flow\":\"3.5\",\"uid\":\"\"}",
        "{\"result\":1,\"ss5\":\"\",\"ss6\":\"\",\"ss4\":\"\",\"time\":0.5,\"flow\":3.5,\"uid\":\"\"}",
        "{\"result\":1,\"ss5\":\"\",\"ss6\":\"\",\"ss4\":\"\",\"time\":0,\"uid\":\"\"}",
        "{\"result\":1,\"ss5\":5,\"ss6\":\"\",\"ss4\":\"\",\"time\":0,\"flow\":3.5,\"uid\":\"\"}",
        "[1]",
        "",
    ];
    for payload in payloads {
        let e = decode(payload).unwrap_err();
        assert_eq!(e.kind, Kind::Parse);
        assert_eq!(e.status, None);
    }
}

#[test]
fn logout_with_a_status_other_than_200_is_a_request_failure() {
    let e = logout(answered(502, "bad gateway")).unwrap_err();
    assert_eq!(e.kind, Kind::Request);
    assert_eq!(e.status, Some(502));
    assert_eq!(e.detail, Some("bad gateway".to_string()));
}

#[test]
fn logout_without_a_session_is_whatever_the_gateway_says() {
    let response = logout(answered(
        200,
        "ctbox({\"result\":0,\"ss5\":\"\",\"ss6\":\"\",\"ss4\":\"\",\"time\":0,\"flow\":0,\"uid\":\"\"})",
    ))
    .unwrap();
    assert_eq!(response.result, 0);
    assert_eq!(response.flow, "0");
}

#[test]
fn assemble_needs_all_seven_fields() {
    let made = assemble(all_fields()).unwrap();
    assert_eq!(made.result, 1);
    assert_eq!(made.ss5, "a");
    assert_eq!(made.ss6, "b");
    assert_eq!(made.ss4, "c");
    assert_eq!(made.time, 12);
    assert_eq!(made.flow, "3.5");
    assert_eq!(made.uid, "u");
    assert_eq!(assemble(Fields { result: None, ..all_fields() }).unwrap_err().kind, Kind::Parse);
    assert_eq!(assemble(Fields { ss5: None, ..all_fields() }).unwrap_err().kind, Kind::Parse);
    assert_eq!(assemble(Fields { ss6: None, ..all_fields() }).unwrap_err().kind, Kind::Parse);
    assert_eq!(assemble(Fields { ss4: None, ..all_fields() }).unwrap_err().kind, Kind::Parse);
    assert_eq!(assemble(Fields { time: None, ..all_fields() }).unwrap_err().kind, Kind::Parse);
    assert_eq!(assemble(Fields { flow: None, ..all_fields() }).unwrap_err().kind, Kind::Parse);
    assert_eq!(assemble(Fields { uid: None, ..all_fields() }).unwrap_err().kind, Kind::Parse);
}

#[test]
fn logout_under_another_callback_is_a_parse_failure() {
    let payload = "{\"result\":1,\"ss5\":\"10.0.0.5\",\"ss6\":\"10.0.0.6\",\"ss4\":\"10.0.0.4\",\"time\":12,\"flow\":3.5,\"uid\":\"u1\"}";
    assert!(logout(answered(200, &format!("ctbox({})", payload))).is_ok());
    for name in ["other", "ctbo", "Ctbox", "ctbox ", ""] {
        let e = logout(answered(200, &format!("{}({})", name, payload))).unwrap_err();
        assert_eq!(e.kind, Kind::Parse);
        assert_eq!(e.status, None);
        assert_eq!(e.detail, None);
    }
}

#[test]
fn logout_finds_the_envelope_inside_another() {
    let payload = "{\"result\":1,\"ss5\":\"\",\"ss6\":\"\",\"ss4\":\"\",\"time\":0,\"flow\":0,\"uid\":\"u\"}";
    let response = logout(answered(200, &format!("other(ctbox({}))", payload)));
    assert_eq!(response.unwrap_err().kind, Kind::Parse);
    let response = logout(answered(200, &format!("xctbox({})", payload))).unwrap();
    assert_eq!(response.uid, "u");
}
