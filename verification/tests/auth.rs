use base64::Engine;
use codex_mic::auth::{
    apply_refresh, auth_path, ensure_fresh_token, exp_in, has_oauth, holds_token,
    is_auth_rejection, jwt_exp, plan_token, refresh, refresh_answer, refresh_failure,
    refresh_request, refresh_stamp, OAuthTokens, TokenPlan,
};
use codex_mic::json::Json;

fn fake_jwt(payload: &str) -> String {
    let b64 = base64::engine::general_purpose::URL_SAFE_NO_PAD.encode(payload.as_bytes());
    format!("aaa.{b64}.ccc")
}

#[test]
fn jwt_exp_reads_payload() {
    let tok = fake_jwt(r#"{"exp":2000000000,"sub":"x"}"#);
    assert_eq!(jwt_exp(&tok), Some(2_000_000_000));
}

#[test]
fn jwt_exp_rejects_garbage() {
    assert_eq!(jwt_exp("not-a-jwt"), None);
    assert_eq!(jwt_exp("a.!!!.c"), None);
    assert_eq!(jwt_exp(""), None);
}

#[test]
fn jwt_exp_wants_a_whole_number() {
    assert_eq!(jwt_exp(&fake_jwt(r#"{"exp":-5}"#)), None);
    assert_eq!(jwt_exp(&fake_jwt(r#"{"exp":1.5}"#)), None);
    assert_eq!(jwt_exp(&fake_jwt(r#"{"exp":"5"}"#)), None);
    assert_eq!(jwt_exp(&fake_jwt(r#"{}"#)), None);
    assert_eq!(jwt_exp(&fake_jwt("[")), None);
    assert_eq!(jwt_exp(&fake_jwt(r#"{"exp":18446744073709551615}"#)), Some(u64::MAX));
    assert_eq!(exp_in(&Json::object().with("exp", Json::Signed(7))), Some(7));
    assert_eq!(exp_in(&Json::object().with("exp", Json::Signed(-7))), None);
}

#[test]
fn login_lies_where_the_environment_says() {
    let ok = |a, b, c| auth_path(a, b, c).unwrap();
    assert_eq!(ok(Some(" /cx "), Some("P"), Some("H")), ["/cx", "auth.json"]);
    assert_eq!(ok(Some("  "), Some("P"), Some("H")), ["P", ".codex", "auth.json"]);
    assert_eq!(ok(None, None, Some("H")), ["H", ".codex", "auth.json"]);
    assert_eq!(
        auth_path(None, None, None),
        Err("could not locate home directory".to_string())
    );
}

#[test]
fn login_holds_a_token_or_not() {
    assert!(has_oauth(r#"{"tokens":{"access_token":"t"}}"#));
    assert!(!has_oauth(r#"{"tokens":{"access_token":""}}"#));
    assert!(!has_oauth(r#"{"tokens":{"access_token":5}}"#));
    assert!(!has_oauth(r#"{"access_token":"t"}"#));
    assert!(!has_oauth("nope"));
    assert!(!holds_token(&Json::Null));
}

fn login(access: &str, refresh: &str) -> String {
    let tokens = Json::object()
        .with("access_token", Json::text(access))
        .with("account_id", Json::text("acc"))
        .with("refresh_token", Json::text(refresh));
    Json::object().with("tokens", tokens).write()
}

#[test]
fn fresh_token_is_used_and_a_stale_one_refreshed() {
    let tok = fake_jwt(r#"{"exp":2000}"#);
    let raw = login(&tok, "r");
    let plan = |now, forced| ensure_fresh_token(Some(&raw), "p", now, forced).map(|r| r.0);
    let use_it = TokenPlan::Use(OAuthTokens { access_token: tok.clone(), account_id: "acc".into() });
    let refresh = TokenPlan::Refresh { refresh_token: "r".into() };
    assert_eq!(plan(1_879, false), Ok(use_it));
    assert_eq!(plan(1_880, false), Ok(refresh.clone()));
    assert_eq!(plan(u64::MAX, false), Ok(refresh.clone()));
    assert_eq!(plan(0, true), Ok(refresh.clone()));
    let opaque = login("opaque", "r");
    assert_eq!(
        ensure_fresh_token(Some(&opaque), "p", 0, false).map(|r| r.0),
        Ok(refresh)
    );
}

#[test]
fn each_reason_why_there_is_no_token() {
    let err = |raw: Option<&str>| ensure_fresh_token(raw, "/x/auth.json", 0, false).unwrap_err();
    assert_eq!(
        err(None),
        "no Codex login found — run `codex login` once, then restart codex-mic"
    );
    assert_eq!(
        err(Some("{")),
        "/x/auth.json is not valid JSON: EOF while parsing an object at line 1 column 1"
    );
    assert_eq!(
        err(Some("{}")),
        "auth.json has no access token — run `codex login` again"
    );
    assert_eq!(
        err(Some(&login("opaque", ""))),
        "access token expired and no refresh token stored — run `codex login`"
    );
    let doc = Json::read(&login("opaque", "")).unwrap();
    assert!(plan_token(&doc, Some(10_000), 0, false).is_ok());
    assert!(plan_token(&doc, Some(120), 0, false).is_err());
}

#[test]
fn refresh_is_asked_for_and_put_into_the_login() {
    assert_eq!(
        refresh_request("r").write(),
        r#"{"client_id":"app_EMoamEEZ73f0CkXaXp7hrann","grant_type":"refresh_token","refresh_token":"r"}"#
    );
    let raw = r#"{"OPENAI_API_KEY":null,"tokens":{"access_token":"old","account_id":"acc","id_token":"i","refresh_token":"r"},"last_refresh":"x"}"#;
    let doc = Json::read(raw).unwrap();
    let body = Json::read(r#"{"access_token":"new","id_token":"j","other":1}"#).unwrap();
    let (doc, tokens) = apply_refresh(doc, &body, "now").unwrap();
    assert_eq!(tokens.access_token, "new");
    assert_eq!(tokens.account_id, "acc");
    assert_eq!(
        doc.write(),
        r#"{"OPENAI_API_KEY":null,"last_refresh":"now","tokens":{"access_token":"new","account_id":"acc","id_token":"j","refresh_token":"r"}}"#
    );
    assert!(doc.write_pretty().starts_with("{\n  \"OPENAI_API_KEY\": null,\n"));

    let body = Json::read(r#"{"access_token":"new","refresh_token":"s"}"#).unwrap();
    let (doc, _) = apply_refresh(doc, &body, "").unwrap();
    assert_eq!(doc.get_str_in("tokens", "refresh_token"), Some("s"));
    assert_eq!(doc.get_str_in("tokens", "id_token"), Some("j"));
}

#[test]
fn refresh_can_be_refused() {
    let doc = || Json::read(r#"{"tokens":[]}"#).unwrap();
    let body = Json::read(r#"{"access_token":"new"}"#).unwrap();
    assert_eq!(
        apply_refresh(doc(), &Json::object(), "").unwrap_err(),
        "token refresh response had no access_token"
    );
    assert_eq!(
        apply_refresh(doc(), &body, "").unwrap_err(),
        "auth.json has no tokens object"
    );
    assert_eq!(
        apply_refresh(Json::Null, &body, "").unwrap_err(),
        "auth.json has no tokens object"
    );
    let long = "가".repeat(300);
    assert_eq!(
        refresh_failure("401 Unauthorized", &long),
        format!("token refresh failed (401 Unauthorized): {} — run `codex login`", "가".repeat(200))
    );
    assert_eq!(
        refresh_failure("500", "x"),
        "token refresh failed (500): x — run `codex login`"
    );
}

#[test]
fn refresh_is_stamped_with_the_time() {
    assert_eq!(refresh_stamp(0), "1970-01-01T00:00:00Z");
    assert_eq!(refresh_stamp(1_700_000_000_500_000_000), "2023-11-14T22:13:20.5Z");
    assert_eq!(refresh_stamp(i128::MAX), "");
    // Before the year 0, which the format cannot express.
    assert_eq!(refresh_stamp(-70_000_000_000_000_000_000), "");
}

#[test]
fn refusal_of_a_token_is_told_from_other_errors() {
    for m in [
        "Your authentication token has been invalidated",
        "Unauthorized",
        "request was unauthorized",
        "token expired",
        "Authentication failed",
    ] {
        assert!(is_auth_rejection(m), "{m}");
    }
    for m in ["model not found", "buffer too small", ""] {
        assert!(!is_auth_rejection(m), "{m}");
    }
}

#[test]
fn refreshed_login_reads_back_and_is_used() {
    let doc = Json::read(&login("old", "r")).unwrap();
    let tok = fake_jwt(r#"{"exp":2000}"#);
    let body = Json::object().with("access_token", Json::text(&tok));
    let (text, tokens) = refresh(doc, &body, "now").unwrap();
    assert_eq!(tokens.access_token, tok);
    assert!(text.contains("\n  \"last_refresh\": \"now\""));
    let (plan, again) = ensure_fresh_token(Some(&text), "p", 0, false).unwrap();
    assert_eq!(plan, TokenPlan::Use(tokens));
    assert_eq!(again.get_str_in("tokens", "refresh_token"), Some("r"));
    assert!(refresh(Json::Null, &body, "").is_err());
}

#[test]
fn answer_of_the_endpoint_decides_about_the_login() {
    let doc = || Json::read(r#"{"tokens":{"access_token":"old","account_id":"acc"}}"#).unwrap();
    let answer = |success, text| refresh_answer(doc(), success, "200 OK", text, "now");

    let good = r#"{"access_token":"new"}"#;
    let (text, tokens) = answer(true, Ok(good)).unwrap();
    assert_eq!(tokens, OAuthTokens { access_token: "new".into(), account_id: "acc".into() });
    assert_eq!(
        text,
        "{\n  \"last_refresh\": \"now\",\n  \"tokens\": {\n    \"access_token\": \"new\",\n    \"account_id\": \"acc\"\n  }\n}"
    );

    assert_eq!(
        answer(true, Ok("{")).unwrap_err(),
        "token refresh returned invalid JSON: EOF while parsing an object at line 1 column 1"
    );
    assert_eq!(
        answer(true, Err("cut off")).unwrap_err(),
        "token refresh returned invalid JSON: cut off"
    );
    assert_eq!(
        answer(true, Ok("{}")).unwrap_err(),
        "token refresh response had no access_token"
    );
    assert_eq!(
        refresh_answer(Json::object(), true, "200 OK", Ok(good), "").unwrap_err(),
        "auth.json has no tokens object"
    );
    assert_eq!(
        refresh_answer(doc(), false, "400 Bad Request", Ok(good), "").unwrap_err(),
        r#"token refresh failed (400 Bad Request): {"access_token":"new"} — run `codex login`"#
    );
    assert_eq!(
        refresh_answer(doc(), false, "502 Bad Gateway", Err("cut off"), "").unwrap_err(),
        "token refresh failed (502 Bad Gateway):  — run `codex login`"
    );
}
