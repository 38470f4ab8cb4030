use samsonr::errors::SamsonrError;
use samsonr::samson::{parse_deploy_response, parse_projects_response, parse_stages_response};

#[test]
fn projects_ok_single() {
    let body = r#"{"projects":[{"id":1,"name":"demo","last_deployed_at":"2024-01-01","last_deployed_by":"alice"}]}"#;
    let r = parse_projects_response(200, body).unwrap();
    assert_eq!(r.len(), 1);
    assert_eq!(r[0].id, 1);
    assert_eq!(r[0].name, "demo");
    assert_eq!(r[0].last_deployed_at, "2024-01-01");
    assert_eq!(r[0].last_deployed_by, "alice");
}

#[test]
fn projects_missing_key_is_format_error() {
    let body = r#"{"things":[]}"#;
    match parse_projects_response(200, body) {
        Err(SamsonrError::ResponseFormat(raw)) => assert_eq!(raw, body),
        other => panic!("expected a format error, got {:?}", other),
    }
}

#[test]
fn deploy_rejection_is_surfaced_verbatim() {
    let body = r#"{"status":422,"error":"invalid reference"}"#;
    match parse_deploy_response(422, body) {
        Err(SamsonrError::RemoteRejection { status, message }) => {
            assert_eq!(status, 422);
            assert_eq!(message, "invalid reference");
        },
        other => panic!("expected a rejection, got {:?}", other),
    }
}

#[test]
fn projects_ok_multiple_and_whitespace() {
    let body = " {\n  \"projects\" : [ {\"id\": 7, \"name\": \"a\", \"last_deployed_at\": \"t\", \"last_deployed_by\": \"u\"} ,\n {\"id\": -3, \"name\": \"b\", \"last_deployed_at\": \"t2\", \"last_deployed_by\": \"v\"} ]\n} ";
    let r = parse_projects_response(200, body).unwrap();
    assert_eq!(r.len(), 2);
    assert_eq!(r[0].id, 7);
    assert_eq!(r[1].id, -3);
    assert_eq!(r[1].name, "b");
}

#[test]
fn projects_created_status_is_success_too() {
    let body = r#"{"projects":[]}"#;
    let r = parse_projects_response(201, body).unwrap();
    assert_eq!(r.len(), 0);
}

#[test]
fn projects_unknown_members_are_skipped() {
    let body = r#"{"meta":{"total":1,"flag":true,"rate":1.5,"note":null},"projects":[{"id":2,"extra":[1,2,3],"name":"x","last_deployed_at":"d","last_deployed_by":"e"}]}"#;
    let r = parse_projects_response(200, body).unwrap();
    assert_eq!(r.len(), 1);
    assert_eq!(r[0].id, 2);
    assert_eq!(r[0].name, "x");
}

#[test]
fn projects_missing_field_is_format_error() {
    let body = r#"{"projects":[{"id":2,"name":"x","last_deployed_at":"d"}]}"#;
    assert!(matches!(
        parse_projects_response(200, body),
        Err(SamsonrError::ResponseFormat(_))
    ));
}

#[test]
fn projects_duplicate_member_is_format_error() {
    let body = r#"{"projects":[],"projects":[]}"#;
    assert!(matches!(
        parse_projects_response(200, body),
        Err(SamsonrError::ResponseFormat(_))
    ));
}

#[test]
fn projects_trailing_garbage_is_format_error() {
    let body = r#"{"projects":[]} x"#;
    assert!(matches!(
        parse_projects_response(200, body),
        Err(SamsonrError::ResponseFormat(_))
    ));
}

#[test]
fn projects_string_escapes_are_decoded() {
    let body = r#"{"projects":[{"id":1,"name":"a\"b\\c\nAé","last_deployed_at":"\u0041\u00e9\u20ac","last_deployed_by":"\t\b\f\r\/"}]}"#;
    let r = parse_projects_response(200, body).unwrap();
    assert_eq!(r[0].name, "a\"b\\c\nA\u{e9}");
    assert_eq!(r[0].last_deployed_at, "A\u{e9}\u{20ac}");
    assert_eq!(r[0].last_deployed_by, "\t\u{8}\u{c}\r/");
}

#[test]
fn projects_bad_escapes_are_format_errors() {
    for name in [r#""\x""#, r#""\uD800""#, r#""\u12""#, r#""unterminated"#] {
        let body = format!(
            r#"{{"projects":[{{"id":1,"name":{},"last_deployed_at":"","last_deployed_by":""}}]}}"#,
            name
        );
        assert!(
            matches!(
                parse_projects_response(200, &body),
                Err(SamsonrError::ResponseFormat(_))
            ),
            "body accepted: {}",
            body
        );
    }
}

#[test]
fn projects_float_id_is_format_error() {
    let body = r#"{"projects":[{"id":1.5,"name":"x","last_deployed_at":"d","last_deployed_by":"e"}]}"#;
    assert!(matches!(
        parse_projects_response(200, body),
        Err(SamsonrError::ResponseFormat(_))
    ));
}

#[test]
fn skipped_members_may_hold_exponent_numbers() {
    let body = r#"{"rate":-1.5e-3,"count":2E8,"projects":[]}"#;
    let r = parse_projects_response(200, body).unwrap();
    assert_eq!(r.len(), 0);
}

#[test]
fn projects_id_out_of_range_is_format_error() {
    let body = r#"{"projects":[{"id":2147483648,"name":"x","last_deployed_at":"d","last_deployed_by":"e"}]}"#;
    assert!(matches!(
        parse_projects_response(200, body),
        Err(SamsonrError::ResponseFormat(_))
    ));
}

#[test]
fn projects_extreme_ids_parse() {
    let body = r#"{"projects":[{"id":2147483647,"name":"x","last_deployed_at":"d","last_deployed_by":"e"},{"id":-2147483648,"name":"y","last_deployed_at":"d","last_deployed_by":"e"}]}"#;
    let r = parse_projects_response(200, body).unwrap();
    assert_eq!(r[0].id, i32::MAX);
    assert_eq!(r[1].id, i32::MIN);
}

#[test]
fn stages_ok() {
    let body = r#"{"stages":[{"id":10,"name":"staging"},{"id":11,"name":"production"}]}"#;
    let r = parse_stages_response(200, body).unwrap();
    assert_eq!(r.len(), 2);
    assert_eq!(r[0].id, 10);
    assert_eq!(r[0].name, "staging");
    assert_eq!(r[1].name, "production");
}

#[test]
fn stages_missing_key_is_format_error() {
    let body = r#"{"projects":[]}"#;
    assert!(matches!(
        parse_stages_response(200, body),
        Err(SamsonrError::ResponseFormat(_))
    ));
}

#[test]
fn stages_rejection_with_unparseable_error_body() {
    let body = "not json at all";
    match parse_stages_response(500, body) {
        Err(SamsonrError::ResponseFormat(raw)) => assert_eq!(raw, body),
        other => panic!("expected a format error, got {:?}", other),
    }
}

#[test]
fn stages_rejection_is_classified() {
    let body = r#"{"status":404,"error":"no such project"}"#;
    match parse_stages_response(404, body) {
        Err(SamsonrError::RemoteRejection { status, message }) => {
            assert_eq!(status, 404);
            assert_eq!(message, "no such project");
        },
        other => panic!("expected a rejection, got {:?}", other),
    }
}

#[test]
fn deploy_ok_returns_summary() {
    let body = r#"{"summary":"Deploy queued","extra":0}"#;
    let r = parse_deploy_response(200, body).unwrap();
    assert_eq!(r.summary, "Deploy queued");
}

#[test]
fn deploy_malformed_success_body_is_format_error() {
    let body = r#"{"outcome":"ok"}"#;
    assert!(matches!(
        parse_deploy_response(200, body),
        Err(SamsonrError::ResponseFormat(_))
    ));
}

#[test]
fn error_body_with_extra_members_still_classifies() {
    let body = r#"{"error":"denied","hint":"none","status":403}"#;
    match parse_deploy_response(403, body) {
        Err(SamsonrError::RemoteRejection { status, message }) => {
            assert_eq!(status, 403);
            assert_eq!(message, "denied");
        },
        other => panic!("expected a rejection, got {:?}", other),
    }
}

#[test]
fn repeated_parsing_of_unchanged_response_is_identical() {
    let body = r#"{"projects":[{"id":1,"name":"demo","last_deployed_at":"2024-01-01","last_deployed_by":"alice"}]}"#;
    let first = parse_projects_response(200, body);
    let second = parse_projects_response(200, body);
    assert_eq!(first, second);
}

#[test]
fn escaping_then_parsing_returns_the_original_text() {
    let original = "a\"b\\c\nd\te\u{1}f é€";
    let mut quoted: Vec<char> = samsonr::json::json_escape_x(&samsonr::chars::str_to_chars(original));
    quoted.push('"');
    let (content, end) = samsonr::json::parse_string_rest_x(&quoted, 0).unwrap();
    assert_eq!(end, quoted.len());
    let text: String = samsonr::chars::chars_to_string(&content);
    assert_eq!(text, original);
}
