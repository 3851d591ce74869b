use omacal::ipc::{create_calendar, reply, usage_reply, NO_WRITABLE_CALENDAR};
use omacal::ipc::{
    bad_request, default_calendar, fail_env, ok_env, socket_path, version_gate, CalendarChoice, MAX_REQUEST_BYTES,
    NO_VERSION, PROTOCOL_VERSION,
};

#[test]
fn the_version_gate_comes_first_and_alone() {
    assert_eq!(version_gate(Some(1)), Ok(()));
    assert_eq!(version_gate(None), Err(NO_VERSION.to_string()));
    assert!(NO_VERSION.contains("names no protocol version"));
    let e = version_gate(Some(2)).unwrap_err();
    assert!(e.contains("v2 is not spoken here"), "{e}");
    assert_eq!(e, "protocol v2 is not spoken here — this OmaCal answers v1");
    assert!(bad_request("missing field `id`").contains("bad request"));
    assert!(omacal::ipc::NOT_JSON.contains("not JSON"));
}

#[test]
fn the_protocol_constants() {
    assert_eq!(PROTOCOL_VERSION, 1);
    assert_eq!(MAX_REQUEST_BYTES, 64 * 1024);
}

#[test]
fn the_socket_lives_in_the_runtime_dir_or_beside_the_database() {
    assert_eq!(socket_path(Some("/run/user/1000"), Some("/data")).as_deref(), Some("/run/user/1000/omacal/ipc.sock"));
    assert_eq!(socket_path(Some("relative"), Some("/data")).as_deref(), Some("/data/ipc.sock"));
    assert_eq!(socket_path(None, Some("/data/")).as_deref(), Some("/data/ipc.sock"));
    assert_eq!(socket_path(None, None), None);
}

fn cal(id: i64, role: &str, primary: bool) -> CalendarChoice {
    CalendarChoice { id, access_role: role.into(), is_primary: primary }
}

#[test]
fn the_default_calendar_is_the_stored_one_then_the_primary_then_the_first_writable() {
    let cals = vec![cal(1, "reader", true), cal(2, "writer", false), cal(3, "owner", true), cal(4, "owner", false)];
    assert_eq!(default_calendar(&cals, Some(4)), Some(4), "the stored choice wins while writable");
    assert_eq!(default_calendar(&cals, Some(1)), Some(3), "a read-only stored choice falls to the primary");
    assert_eq!(default_calendar(&cals, None), Some(3));
    let no_primary = vec![cal(7, "writer", false), cal(5, "owner", false)];
    assert_eq!(default_calendar(&no_primary, None), Some(5), "the lowest id among the writable");
    assert_eq!(default_calendar(&[cal(1, "reader", true)], None), None);
    assert_eq!(default_calendar(&[], Some(1)), None);
}

#[test]
fn the_envelope_is_the_clis_own() {
    let e: serde_json::Value = serde_json::from_str(&fail_env("refused", "no")).unwrap();
    assert_eq!(e["ok"], false);
    assert_eq!(e["error"]["code"], "refused");
    let o: serde_json::Value = serde_json::from_str(&ok_env("{\"deleted\":true}")).unwrap();
    assert_eq!(o["ok"], true);
    assert_eq!(o["data"]["deleted"], true);
}

#[test]
fn an_envelope_carries_any_message_as_valid_json() {
    assert_eq!(fail_env("usage", "a \"b\""), "{\"ok\":false,\"error\":{\"code\":\"usage\",\"message\":\"a \\\"b\\\"\"}}");
    assert_eq!(ok_env("1"), "{\"ok\":true,\"data\":1}");
    let message = "line\none\ttab\\back\u{1}ctl\u{8}\u{c}\r — done";
    let e: serde_json::Value = serde_json::from_str(&fail_env("refused", message)).unwrap();
    assert_eq!(e["error"]["message"], message);
}

#[test]
fn each_outcome_gets_its_own_envelope() {
    let ok: serde_json::Value = serde_json::from_str(&reply(Ok("{\"deleted\":true}".into()))).unwrap();
    assert_eq!(ok["ok"], true);
    assert_eq!(ok["data"]["deleted"], true);
    let refused: serde_json::Value = serde_json::from_str(&reply(Err("demo mode".into()))).unwrap();
    assert_eq!(refused["ok"], false);
    assert_eq!(refused["error"]["code"], "refused");
    assert_eq!(refused["error"]["message"], "demo mode");
    let usage: serde_json::Value = serde_json::from_str(&usage_reply("the request is not JSON")).unwrap();
    assert_eq!(usage["error"]["code"], "usage");

    let cals = vec![cal(1, "reader", true), cal(4, "writer", false), cal(2, "owner", true)];
    assert_eq!(create_calendar(Some(9), &cals, None), Ok(9), "a named calendar is taken as named");
    assert_eq!(create_calendar(None, &cals, None), Ok(2), "else the default calendar");
    assert_eq!(
        create_calendar(None, &[cal(1, "reader", true)], None),
        Err(NO_WRITABLE_CALENDAR.to_string())
    );
}
