use tunneldash::api::{
    accounts_url, extract_error, settle_response, tunnel_config_url, tunnels_url, with_config_result, Account, Envelope,
    TunnelConfig,
};
use tunneldash::json::{empty_object, get_member, Json, Member};

fn s(t: &str) -> Json {
    Json::Str(t.to_string())
}

fn obj(members: Vec<(&str, Json)>) -> Json {
    Json::Object(members.into_iter().map(|(n, v)| Member { name: n.to_string(), value: v }).collect())
}

fn accounts_envelope() -> Envelope<Vec<Account>> {
    Envelope { success: Some(false), errors: None, result: None }
}

#[test]
fn config_result_never_absent() {
    let r = with_config_result(TunnelConfig { result: None });
    match r.result {
        Some(Json::Object(m)) => assert!(m.is_empty()),
        other => panic!("unexpected {:?}", other),
    }
    let kept = with_config_result(TunnelConfig { result: Some(obj(vec![("ingress", Json::Array(vec![]))])) });
    match kept.result {
        Some(Json::Object(m)) => {
            assert_eq!(m.len(), 1);
            assert_eq!(m[0].name, "ingress");
        }
        other => panic!("unexpected {:?}", other),
    }
}

#[test]
fn error_from_generic_envelope() {
    let body = obj(vec![
        ("success", Json::Bool(false)),
        ("errors", Json::Array(vec![obj(vec![("message", s("Invalid token"))])])),
        ("result", Json::Null),
    ]);
    let r = settle_response(403, accounts_envelope(), &body);
    assert_eq!(r.unwrap_err(), "Invalid token");
}

#[test]
fn error_fallback_message() {
    let body = obj(vec![("success", Json::Bool(false)), ("errors", Json::Array(vec![]))]);
    let r = settle_response(500, accounts_envelope(), &body);
    assert_eq!(r.unwrap_err(), "request failed");
}

#[test]
fn success_hands_back_body() {
    let body = obj(vec![("success", Json::Bool(true))]);
    let env = Envelope {
        success: Some(true),
        errors: Some(vec![]),
        result: Some(vec![Account { id: "a1".to_string(), name: "Main".to_string() }]),
    };
    let r = settle_response(200, env, &body).unwrap();
    assert_eq!(r.result.unwrap()[0].id, "a1");
}

#[test]
fn first_error_wins() {
    let body = obj(vec![(
        "errors",
        Json::Array(vec![obj(vec![("message", s("first"))]), obj(vec![("message", s("second"))])]),
    )]);
    assert_eq!(extract_error(&body), Some("first".to_string()));
}

#[test]
fn malformed_envelopes_report_nothing() {
    // A later entry that is not an error entry spoils the whole envelope.
    let bad_entry = obj(vec![("errors", Json::Array(vec![obj(vec![("message", s("m"))]), Json::Number("3".to_string())]))]);
    assert_eq!(extract_error(&bad_entry), None);
    let bad_success = obj(vec![("success", s("no")), ("errors", Json::Array(vec![obj(vec![("message", s("m"))])]))]);
    assert_eq!(extract_error(&bad_success), None);
    let no_message = obj(vec![("errors", Json::Array(vec![obj(vec![("code", Json::Number("1000".to_string()))])]))]);
    assert_eq!(extract_error(&no_message), None);
    assert_eq!(extract_error(&Json::Null), None);
    let r = settle_response(404, accounts_envelope(), &Json::Str("nope".to_string()));
    assert_eq!(r.unwrap_err(), "request failed");
}

#[test]
fn array_shaped_envelope() {
    let body = Json::Array(vec![Json::Null, Json::Array(vec![Json::Array(vec![s("from array")])]), Json::Null]);
    assert_eq!(extract_error(&body), Some("from array".to_string()));
}

#[test]
fn request_addresses() {
    assert_eq!(accounts_url(), "https://api.cloudflare.com/client/v4/accounts");
    assert_eq!(tunnels_url("acc1"), "https://api.cloudflare.com/client/v4/accounts/acc1/cfd_tunnel?is_deleted=false");
    assert_eq!(
        tunnel_config_url("acc1", "t9"),
        "https://api.cloudflare.com/client/v4/accounts/acc1/cfd_tunnel/t9/configurations"
    );
}

#[test]
fn member_lookup() {
    let o = vec![
        Member { name: "a".to_string(), value: Json::Bool(true) },
        Member { name: "a".to_string(), value: Json::Bool(false) },
    ];
    assert!(matches!(get_member(&o, "a"), Some(Json::Bool(true))));
    assert!(get_member(&o, "b").is_none());
    assert!(matches!(empty_object(), Json::Object(m) if m.is_empty()));
}
