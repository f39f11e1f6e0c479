use ctbox::error::{Error, Kind};
use ctbox::query::{
    assemble_device, assemble_user, decode_device, decode_devices, decode_user, decode_users,
    device_request, query_device_info, query_user_info, summary, user_request, DeviceInfo, UserInfo,
    NODE_DEVICE, NODE_USER,
};
use ctbox::transport::RawResponse;

fn answered(status: u16, body: &str) -> Option<RawResponse> {
    Some(RawResponse { status, body: Some(body.to_string()) })
}

#[test]
fn query_requests_carry_the_account_where_one_is_asked_for() {
    let all = user_request(None);
    assert_eq!(all.node, NODE_USER);
    assert_eq!(all.params, vec![("callback".to_string(), "ctbox".to_string())]);
    let one = user_request(Some("a 1"));
    assert_eq!(
        one.params,
        vec![
            ("callback".to_string(), "ctbox".to_string()),
            ("account".to_string(), "a 1".to_string()),
        ]
    );
    assert_eq!(
        one.url().unwrap(),
        "http://192.168.1.91/drcom/query_user?callback=ctbox&account=a+1"
    );
    let devices = device_request(Some("a1"));
    assert_eq!(devices.node, NODE_DEVICE);
    assert_eq!(
        devices.url().unwrap(),
        "http://192.168.1.91/drcom/query_device?callback=ctbox&account=a1"
    );
    assert_eq!(
        device_request(None).url().unwrap(),
        "http://192.168.1.91/drcom/query_device?callback=ctbox"
    );
}

#[test]
fn query_user_with_an_empty_array_is_an_empty_list() {
    let users = query_user_info(answered(200, "ctbox([])")).unwrap();
    assert!(users.is_empty());
    let devices = query_device_info(answered(200, "ctbox([])")).unwrap();
    assert!(devices.is_empty());
}

#[test]
fn query_user_decodes_each_element_in_order() {
    let users = query_user_info(answered(
        200,
        "ctbox([{\"user_flow\":12.5,\"user_time\":30,\"user_money\":4.2,\"mac\":\"00:11\"},{\"user_flow\":0,\"user_time\":0,\"user_money\":10,\"mac\":null},{\"user_flow\":1,\"user_time\":2,\"user_money\":3}])",
    ))
    .unwrap();
    assert_eq!(users.len(), 3);
    assert_eq!(users[0].user_flow, "12.5");
    assert_eq!(users[0].user_time, 30);
    assert_eq!(users[0].user_money, "4.2");
    assert_eq!(users[0].mac, Some("00:11".to_string()));
    assert_eq!(users[1].user_flow, "0");
    assert_eq!(users[1].user_money, "10");
    assert_eq!(users[1].mac, None);
    assert_eq!(users[2].user_time, 2);
    assert_eq!(users[2].mac, None);
}

#[test]
fn query_device_decodes_each_element_in_order() {
    let devices = query_device_info(answered(
        200,
        "ctbox([{\"login_time\":\"2024-01-01 08:00:00\",\"bas_id\":\"bas1\",\"login_ip\":\"10.0.0.2\",\"mac_address\":\"AA\"},{\"login_time\":\"t2\",\"bas_id\":\"bas2\",\"login_ip\":\"10.0.0.3\",\"mac_address\":\"BB\"}])",
    ))
    .unwrap();
    assert_eq!(devices.len(), 2);
    assert_eq!(devices[0].login_time, "2024-01-01 08:00:00");
    assert_eq!(devices[0].bas_id, "bas1");
    assert_eq!(devices[0].login_ip, "10.0.0.2");
    assert_eq!(devices[0].mac_address, "AA");
    assert_eq!(devices[1].login_time, "t2");
    assert_eq!(devices[1].mac_address, "BB");
}

#[test]
fn one_element_that_does_not_decode_leaves_nothing() {
    let e = decode_users(
        "[{\"user_flow\":12.5,\"user_time\":30,\"user_money\":4.2},{\"user_flow\":\"x\",\"user_time\":30,\"user_money\":4.2}]",
    )
    .unwrap_err();
    assert_eq!(e.kind, Kind::Parse);
    let e = decode_devices(
        "[{\"login_time\":\"t\",\"bas_id\":\"b\",\"login_ip\":\"i\",\"mac_address\":\"m\"},7]",
    )
    .unwrap_err();
    assert_eq!(e.kind, Kind::Parse);
}

#[test]
fn a_payload_that_is_no_array_is_a_parse_failure() {
    for payload in ["{}", "", "null", "[", "[] []", "{\"user_flow\":1}"] {
        assert_eq!(decode_users(payload).unwrap_err().kind, Kind::Parse);
        assert_eq!(decode_devices(payload).unwrap_err().kind, Kind::Parse);
    }
}

#[test]
fn queries_with_a_status_other_than_200_are_request_failures() {
    let e = query_user_info(answered(404, "ctbox([])")).unwrap_err();
    assert_eq!(e.kind, Kind::Request);
    assert_eq!(e.status, Some(404));
    let e = query_device_info(answered(500, "ctbox([])")).unwrap_err();
    assert_eq!(e.kind, Kind::Request);
    assert_eq!(e.status, Some(500));
    assert_eq!(query_user_info(None).unwrap_err().kind, Kind::Request);
    assert_eq!(query_device_info(None).unwrap_err().kind, Kind::Request);
}

#[test]
fn a_user_record_needs_its_numbers() {
    assert!(decode_user("{\"user_flow\":1,\"user_time\":2,\"user_money\":3}").is_ok());
    for element in [
        "{\"user_time\":2,\"user_money\":3}",
        "{\"user_flow\":1,\"user_money\":3}",
        "{\"user_flow\":1,\"user_time\":2}",
        "{\"user_flow\":1,\"user_time\":2.5,\"user_money\":3}",
        "{\"user_flow\":1,\"user_time\":2,\"user_money\":3,\"mac\":5}",
        "[]",
    ] {
        assert_eq!(decode_user(element).unwrap_err().kind, Kind::Parse);
    }
}

#[test]
fn a_device_record_needs_its_four_strings() {
    assert!(decode_device(
        "{\"login_time\":\"t\",\"bas_id\":\"b\",\"login_ip\":\"i\",\"mac_address\":\"m\"}"
    )
    .is_ok());
    for element in [
        "{\"bas_id\":\"b\",\"login_ip\":\"i\",\"mac_address\":\"m\"}",
        "{\"login_time\":\"t\",\"login_ip\":\"i\",\"mac_address\":\"m\"}",
        "{\"login_time\":\"t\",\"bas_id\":\"b\",\"mac_address\":\"m\"}",
        "{\"login_time\":\"t\",\"bas_id\":\"b\",\"login_ip\":\"i\"}",
        "{\"login_time\":1,\"bas_id\":\"b\",\"login_ip\":\"i\",\"mac_address\":\"m\"}",
    ] {
        assert_eq!(decode_device(element).unwrap_err().kind, Kind::Parse);
    }
}

#[test]
fn assemble_user_needs_all_fields_read() {
    let made = assemble_user(Some("1.5".to_string()), Some(2), Some("3".to_string()), Some(None)).unwrap();
    assert_eq!(made.user_flow, "1.5");
    assert_eq!(made.user_time, 2);
    assert_eq!(made.user_money, "3");
    assert_eq!(made.mac, None);
    let text = || Some("1".to_string());
    assert_eq!(assemble_user(None, Some(2), text(), Some(None)).unwrap_err().kind, Kind::Parse);
    assert_eq!(assemble_user(text(), None, text(), Some(None)).unwrap_err().kind, Kind::Parse);
    assert_eq!(assemble_user(text(), Some(2), None, Some(None)).unwrap_err().kind, Kind::Parse);
    assert_eq!(assemble_user(text(), Some(2), text(), None).unwrap_err().kind, Kind::Parse);
}

#[test]
fn assemble_device_needs_all_fields_read() {
    let text = || Some("x".to_string());
    let made = assemble_device(Some("t".to_string()), Some("b".to_string()), Some("i".to_string()), Some("m".to_string())).unwrap();
    assert_eq!(made.login_time, "t");
    assert_eq!(made.bas_id, "b");
    assert_eq!(made.login_ip, "i");
    assert_eq!(made.mac_address, "m");
    assert_eq!(assemble_device(None, text(), text(), text()).unwrap_err().kind, Kind::Parse);
    assert_eq!(assemble_device(text(), None, text(), text()).unwrap_err().kind, Kind::Parse);
    assert_eq!(assemble_device(text(), text(), None, text()).unwrap_err().kind, Kind::Parse);
    assert_eq!(assemble_device(text(), text(), text(), None).unwrap_err().kind, Kind::Parse);
}

#[test]
fn queries_under_another_callback_are_parse_failures() {
    let users = "[{\"user_flow\":1,\"user_time\":2,\"user_money\":3}]";
    assert!(query_user_info(answered(200, &format!("ctbox({})", users))).is_ok());
    let e = query_user_info(answered(200, &format!("other({})", users))).unwrap_err();
    assert_eq!(e.kind, Kind::Parse);
    assert_eq!(e.status, None);
    let e = query_device_info(answered(200, "other([])")).unwrap_err();
    assert_eq!(e.kind, Kind::Parse);
    assert_eq!(e.status, None);
}

fn user(money: &str) -> UserInfo {
    UserInfo {
        user_flow: "1".to_string(),
        user_time: 2,
        user_money: money.to_string(),
        mac: None,
    }
}

fn device(mac: &str) -> DeviceInfo {
    DeviceInfo {
        login_time: "t".to_string(),
        bas_id: "b".to_string(),
        login_ip: "10.0.0.2".to_string(),
        mac_address: mac.to_string(),
    }
}

#[test]
fn summary_shows_the_first_balance_and_the_number_of_devices() {
    let users = Ok(vec![user("4.2"), user("9")]);
    let devices = Ok(vec![device("00:11"), device("00:12"), device("00:13")]);
    assert_eq!(summary(&users, &devices), (Some("4.2".to_string()), Some(3)));
}

#[test]
fn summary_leaves_out_what_a_failed_query_would_have_given() {
    let users = Ok(vec![user("4.2")]);
    let no_users: Result<Vec<UserInfo>, Error> = Err(Error::new(Kind::Request));
    let devices = Ok(vec![device("00:11")]);
    let no_devices: Result<Vec<DeviceInfo>, Error> = Err(Error::new(Kind::Parse));
    assert_eq!(summary(&no_users, &devices), (None, Some(1)));
    assert_eq!(summary(&users, &no_devices), (Some("4.2".to_string()), None));
    assert_eq!(summary(&no_users, &no_devices), (None, None));
}

#[test]
fn summary_of_empty_answers_has_no_balance_and_no_devices() {
    let users: Result<Vec<UserInfo>, Error> = Ok(Vec::new());
    let devices: Result<Vec<DeviceInfo>, Error> = Ok(Vec::new());
    assert_eq!(summary(&users, &devices), (None, Some(0)));
}
