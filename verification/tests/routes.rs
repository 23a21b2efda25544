use streamer_tools::routes::{
    auth_code_form, auth_outcome, AuthOutcome, close_message, pre, refresh_token_form, to_x_www_thingies_fuck_of, Action,
    ReadFlow, RunningTimers, WsPayload,
};

#[test]
fn api_paths() {
    assert_eq!(pre("/ping"), "/api/v1/ping");
    assert_eq!(pre(""), "/api/v1");
    assert_eq!(close_message("abc"), "close-abc");
}

#[test]
fn form_body() {
    let body = to_x_www_thingies_fuck_of(vec![("a", "1".to_string()), ("b", "x y".to_string())]);
    assert_eq!(body, "a=1&b=x y");
    assert_eq!(to_x_www_thingies_fuck_of(vec![("k", String::new())]), "k=");
}

#[test]
fn token_forms() {
    let f = refresh_token_form("id".into(), "secret".into(), "tok".into());
    assert_eq!(
        to_x_www_thingies_fuck_of(f),
        "client_id=id&client_secret=secret&refresh_token=tok&grant_type=refresh_token"
    );
    let g = auth_code_form("id".into(), "s".into(), "c".into());
    assert_eq!(g[3], ("grant_type", "authorization_code".to_string()));
    assert_eq!(g[4].1, "http://localhost:22727/");
}

fn msg(id: &str, payload: Action) -> WsPayload {
    WsPayload { id: id.to_string(), payload }
}

#[test]
fn registering_viewers() {
    let mut r = RunningTimers::new();
    assert_eq!(r.apply(&msg("a", Action::Reg)), ReadFlow::Continue);
    assert_eq!(r.get("a"), Some(1));
    assert_eq!(r.apply(&msg("a", Action::Reg)), ReadFlow::Stop);
    assert_eq!(r.get("a"), Some(2));
    assert_eq!(r.apply(&msg("b", Action::Reg)), ReadFlow::Continue);
    assert_eq!(r.active_ids(), vec!["a".to_string(), "b".to_string()]);
    r.apply(&msg("b", Action::UnReg));
    r.apply(&msg("b", Action::UnReg));
    assert_eq!(r.get("b"), Some(0));
    assert_eq!(r.active_ids(), vec!["a".to_string()]);
    assert_eq!(r.apply(&msg("c", Action::UnReg)), ReadFlow::Continue);
    assert_eq!(r.get("c"), None);
    assert_eq!(r.apply(&msg("a", Action::Dec)), ReadFlow::Continue);
    assert_eq!(r.get("a"), Some(2));
}

#[test]
fn declined_login_is_reported() {
    match auth_outcome(None, Some("access_denied".to_string()), Some("user said no".to_string())) {
        AuthOutcome::Declined(t) => assert_eq!(t, "access_denied user said no"),
        AuthOutcome::Exchange(_) => panic!("an error means the login was declined"),
    }
    match auth_outcome(Some("c0de".to_string()), Some("e".to_string()), None) {
        AuthOutcome::Declined(t) => assert_eq!(t, "e "),
        AuthOutcome::Exchange(_) => panic!("an error wins over a code"),
    }
}

#[test]
fn login_code_is_exchanged() {
    match auth_outcome(Some("c0de".to_string()), None, Some("ignored".to_string())) {
        AuthOutcome::Exchange(c) => assert_eq!(c, "c0de"),
        AuthOutcome::Declined(_) => panic!("no error came"),
    }
}
