use autoasr::api::{
    bearer_token, describe_api_error, format_api_error, interpret_response, mime_for_extension,
    mime_type, optional_integer, read_error_body, upload_file_name, ErrorBody, SuccessResponse,
};

#[test]
fn error_objects_are_shown_by_their_fields() {
    let body = "{\"code\":20012,\"message\":\"Model does not exist\",\"data\":null}";
    assert_eq!(
        format_api_error(400, "400 Bad Request", body),
        "API Error (HTTP 400 Bad Request, code Some(20012)): Model does not exist"
    );
    let body = "{\"message\":\"no\",\"data\":\"details\"}";
    assert_eq!(
        format_api_error(403, "403 Forbidden", body),
        "API Error (HTTP 403 Forbidden, code None): no details"
    );
    let body = "{\"code\":-5}";
    assert_eq!(
        format_api_error(500, "500 Internal Server Error", body),
        "API Error (HTTP 500 Internal Server Error, code Some(-5)):"
    );
    let body = "{\"code\":1,\"data\":\"d\"}";
    assert_eq!(format_api_error(429, "429 Too Many Requests", body),
        "API Error (HTTP 429 Too Many Requests, code Some(1)):  d");
}

#[test]
fn error_strings_are_shown_as_they_are() {
    assert_eq!(
        format_api_error(401, "401 Unauthorized", "\"Invalid token\""),
        "API Error (HTTP 401 Unauthorized): Invalid token"
    );
}

#[test]
fn other_bodies_are_shown_raw() {
    assert_eq!(
        format_api_error(429, "429 Too Many Requests", "slow down"),
        "Rate limited (HTTP 429): slow down"
    );
    assert_eq!(
        format_api_error(500, "500 Internal Server Error", "oops"),
        "API Error (HTTP 500 Internal Server Error): oops"
    );
    assert_eq!(
        format_api_error(502, "502 Bad Gateway", "{\"other\":1}"),
        "API Error (HTTP 502 Bad Gateway): {\"other\":1}"
    );
    assert_eq!(
        format_api_error(429, "429 Too Many Requests", "[1,2]"),
        "Rate limited (HTTP 429): [1,2]"
    );
}

#[test]
fn the_parts_of_an_error_body() {
    assert_eq!(
        read_error_body("{\"code\":7,\"message\":\"m\",\"data\":\"d\"}"),
        ErrorBody {
            code: Some(7),
            message: Some("m".to_string()),
            data: Some("d".to_string()),
            text: None,
        }
    );
    assert_eq!(
        read_error_body("\"t\""),
        ErrorBody { code: None, message: None, data: None, text: Some("t".to_string()) }
    );
    assert_eq!(
        read_error_body("{\"code\":\"7\",\"message\":3}"),
        ErrorBody { code: None, message: None, data: None, text: None }
    );
    assert_eq!(
        read_error_body("not json"),
        ErrorBody { code: None, message: None, data: None, text: None }
    );
    let parts = ErrorBody { code: None, message: Some("m".to_string()), data: None, text: None };
    assert_eq!(describe_api_error(400, "400", "raw", &parts), "API Error (HTTP 400, code None): m");
}

#[test]
fn optional_integers_are_shown_like_options() {
    assert_eq!(optional_integer(None), "None");
    assert_eq!(optional_integer(Some(0)), "Some(0)");
    assert_eq!(optional_integer(Some(i64::MAX)), "Some(9223372036854775807)");
    assert_eq!(optional_integer(Some(i64::MIN)), "Some(-9223372036854775808)");
    assert_eq!(optional_integer(Some(-42)), format!("{:?}", Some(-42i64)));
}

#[test]
fn answers_are_read_by_their_status() {
    let parsed = Some(SuccessResponse { text: "hello".to_string() });
    assert_eq!(interpret_response(200, "200 OK", "{\"text\":\"hello\"}", parsed), Ok("hello".to_string()));
    assert_eq!(
        interpret_response(200, "200 OK", "{}", None),
        Err("Failed to parse success response: {}".to_string())
    );
    let parsed = Some(SuccessResponse { text: "hello".to_string() });
    assert_eq!(
        interpret_response(500, "500 Internal Server Error", "oops", parsed),
        Err("API Error (HTTP 500 Internal Server Error): oops".to_string())
    );
    assert_eq!(interpret_response(299, "299", "x", Some(SuccessResponse { text: "t".to_string() })), Ok("t".to_string()));
    assert_eq!(interpret_response(199, "199", "x", None), Err("API Error (HTTP 199): x".to_string()));
    assert_eq!(interpret_response(300, "300", "x", None), Err("API Error (HTTP 300): x".to_string()));
}

#[test]
fn media_types_follow_the_extension() {
    assert_eq!(mime_type("/m/a.wav"), "audio/wav");
    assert_eq!(mime_type("/m/a.OGG"), "audio/ogg");
    assert_eq!(mime_type("/m/a.opus"), "audio/ogg");
    assert_eq!(mime_type("/m/a.mp3"), "audio/mpeg");
    assert_eq!(mime_type("/m/a.m4a"), "audio/mp4");
    assert_eq!(mime_type("/m/a.flac"), "audio/mpeg");
    assert_eq!(mime_type("/m/a"), "audio/mpeg");
    assert_eq!(mime_for_extension("WAV"), "audio/mpeg");
}

#[test]
fn uploads_are_named_and_authorized() {
    assert_eq!(upload_file_name("/m/show.mkv-track1.mp3"), "show.mkv-track1.mp3");
    assert_eq!(upload_file_name("/"), "");
    assert_eq!(bearer_token("sk-1"), "Bearer sk-1");
}
