use samsonr::errors::SamsonrError;
use samsonr::samson::{Client, HttpMethod};

#[test]
fn new_accepts_an_ordinary_token() {
    let client = Client::new(&String::from("s3cr3t-token")).unwrap();
    assert_eq!(client.token, "s3cr3t-token");
}

#[test]
fn new_accepts_spaces_and_non_ascii() {
    assert!(Client::new(&String::from("abc def é€")).is_ok());
}

#[test]
fn new_rejects_control_characters() {
    assert!(matches!(
        Client::new(&String::from("abc\ndef")),
        Err(SamsonrError::ClientBuild)
    ));
    assert!(matches!(
        Client::new(&String::from("abc\u{7f}")),
        Err(SamsonrError::ClientBuild)
    ));
}

#[test]
fn requests_carry_one_bearer_authorization() {
    let client = Client::new(&String::from("tok")).unwrap();
    assert_eq!(client.auth_header(), "Bearer tok");
    let r = client.projects_request();
    assert_eq!(r.authorization, "Bearer tok");
    let r = client.stages_request(5);
    assert_eq!(r.authorization, "Bearer tok");
    let r = client.deploy_request(5, 6, &String::from("main"));
    assert_eq!(r.authorization, "Bearer tok");
}

#[test]
fn projects_request_shape() {
    let client = Client::new(&String::from("tok")).unwrap();
    let r = client.projects_request();
    assert_eq!(r.method, HttpMethod::Get);
    assert_eq!(r.url, "https://deploy.meisterlabs.com/projects.json");
    assert!(r.body.is_none());
    assert_eq!(r.user_agent, "samsonr/0.1.0");
}

#[test]
fn stages_request_shape() {
    let client = Client::new(&String::from("tok")).unwrap();
    let r = client.stages_request(42);
    assert_eq!(r.method, HttpMethod::Get);
    assert_eq!(r.url, "https://deploy.meisterlabs.com/projects/42/stages.json");
    assert!(r.body.is_none());
}

#[test]
fn stages_request_negative_id() {
    let client = Client::new(&String::from("tok")).unwrap();
    let r = client.stages_request(-7);
    assert_eq!(r.url, "https://deploy.meisterlabs.com/projects/-7/stages.json");
}

#[test]
fn deploy_request_shape() {
    let client = Client::new(&String::from("tok")).unwrap();
    let r = client.deploy_request(3, 120, &String::from("feature-x"));
    assert_eq!(r.method, HttpMethod::Post);
    assert_eq!(
        r.url,
        "https://deploy.meisterlabs.com/projects/3/stages/120/deploys.json"
    );
    assert_eq!(
        r.body.unwrap(),
        r#"{"deploy":{"reference":"feature-x"}}"#
    );
}

#[test]
fn deploy_request_escapes_the_reference() {
    let client = Client::new(&String::from("tok")).unwrap();
    let r = client.deploy_request(1, 2, &String::from("a\"b\\c\nd"));
    assert_eq!(
        r.body.unwrap(),
        "{\"deploy\":{\"reference\":\"a\\\"b\\\\c\\u000ad\"}}"
    );
}

#[test]
fn error_messages_render() {
    assert_eq!(
        SamsonrError::MissingToken.message(),
        "Missing authorization token"
    );
    assert_eq!(SamsonrError::MissingProjectId.message(), "Missing project ID");
    assert_eq!(
        SamsonrError::MissingReference.message(),
        "No branch reference provided"
    );
    assert_eq!(SamsonrError::ClientBuild.message(), "Failed to build client");
    assert_eq!(
        SamsonrError::Transport(String::from("timed out")).message(),
        "Transport error: timed out"
    );
    assert_eq!(
        SamsonrError::ResponseFormat(String::from("<html>")).message(),
        "Unexpected response body: <html>"
    );
    assert_eq!(
        SamsonrError::RemoteRejection {
            status: 422,
            message: String::from("invalid reference")
        }
        .message(),
        "422 - invalid reference"
    );
}

#[test]
fn new_rejects_an_empty_token() {
    assert!(matches!(
        Client::new(&String::new()),
        Err(SamsonrError::ClientBuild)
    ));
}
