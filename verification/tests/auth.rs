use pocket_feeder::pocket_auth::{
    access_file_contents, access_token_from_file, access_token_request, authorize_url, callback_address, token_request,
    AuthEvent, AuthStep,
};

fn pairs(fields: &[(String, String)]) -> Vec<(&str, &str)> {
    fields.iter().map(|(k, v)| (k.as_str(), v.as_str())).collect()
}

#[test]
fn token_request_names_the_redirect() {
    let request = token_request("key");
    assert_eq!(request.endpoint, "https://getpocket.com/v3/oauth/request");
    assert_eq!(
        pairs(&request.fields),
        vec![("consumer_key", "key"), ("redirect_uri", "pocketapp1234:authorizationFinished")]
    );
}

#[test]
fn access_token_request_sends_the_code() {
    let request = access_token_request("key", "abc");
    assert_eq!(request.endpoint, "https://getpocket.com/v3/oauth/authorize");
    assert_eq!(pairs(&request.fields), vec![("consumer_key", "key"), ("code", "abc")]);
}

#[test]
fn callback_and_authorize_addresses() {
    assert_eq!(callback_address(13372), "127.0.0.1:13372");
    assert_eq!(callback_address(0), "127.0.0.1:0");
    assert_eq!(callback_address(65535), "127.0.0.1:65535");
    assert_eq!(
        authorize_url("tok", 13372),
        "https://getpocket.com/auth/authorize?request_token=tok&redirect_uri=http://127.0.0.1:13372"
    );
}

#[test]
fn token_file_contents_are_trimmed() {
    assert_eq!(access_token_from_file("abc-123\n"), "abc-123");
    assert_eq!(access_token_from_file("  \t token with space \r\n"), "token with space");
    assert_eq!(access_token_from_file(" \n "), "");
    assert_eq!(access_token_from_file(""), "");
    assert_eq!(access_token_from_file("\u{a0}x\u{2003}"), "x");
}

#[test]
fn stored_token_is_used() {
    let step = AuthStep::start().next(AuthEvent::FileRead { stored: Some("stored".to_string()) });
    assert_eq!(step.token(), Some("stored".to_string()));
}

#[test]
fn new_token_is_obtained_authorized_and_saved() {
    let step = AuthStep::start().next(AuthEvent::FileRead { stored: None });
    assert!(matches!(step, AuthStep::RequestCode));
    let step = step.next(AuthEvent::CodeReceived { code: "c1".to_string() });
    assert!(matches!(&step, AuthStep::Authorize { code } if code == "c1"));
    let step = step.next(AuthEvent::Authorized);
    assert!(matches!(&step, AuthStep::RequestToken { code } if code == "c1"));
    let step = step.next(AuthEvent::TokenReceived { token: "t1".to_string() });
    assert!(matches!(&step, AuthStep::SaveToken { token } if token == "t1"));
    assert_eq!(step.token(), None);
    let step = step.next(AuthEvent::TokenSaved);
    assert_eq!(step.token(), Some("t1".to_string()));
    let step = step.next(AuthEvent::Authorized);
    assert_eq!(step.token(), Some("t1".to_string()));
}

#[test]
fn unrelated_events_leave_the_step() {
    let step = AuthStep::start().next(AuthEvent::TokenSaved);
    assert!(matches!(step, AuthStep::ReadTokenFile));
}

#[test]
fn token_file_round_trip() {
    let contents = access_file_contents("abc-123");
    assert_eq!(contents, "abc-123\n");
    assert_eq!(access_token_from_file(&contents), "abc-123");
    assert_eq!(access_token_from_file(&access_file_contents(" padded ")), "padded");
}
