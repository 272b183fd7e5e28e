use moly_kit::errors::enrich_http_error;

#[test]
fn rate_limit_gets_a_note() {
    let r = enrich_http_error(429, "Request failed", None);
    assert_eq!(
        r,
        "Request failed\n\nNote: This usually means you've hit a rate limit, run out of quota/credits, or do not have access to this resource/model in your current plan."
    );
}

#[test]
fn unauthorized_with_body() {
    let r = enrich_http_error(401, "Failed", Some("{\"error\":\"bad key\"}"));
    assert_eq!(
        r,
        "Failed\n\nResponse: {\"error\":\"bad key\"}\n\nNote: This usually means your API key is invalid or expired."
    );
}

#[test]
fn forbidden_and_bad_request() {
    assert!(enrich_http_error(403, "x", None)
        .ends_with("This usually means you do not have permission to access this resource."));
    assert!(enrich_http_error(400, "x", None).ends_with(
        "This might be an error on our side. If the problem persists, please file an issue on GitHub."
    ));
}

#[test]
fn server_errors_from_500_to_505() {
    let note = "\n\nNote: A server error occurred. This is likely a temporary issue with the provider.";
    assert_eq!(enrich_http_error(500, "x", None), format!("x{}", note));
    assert_eq!(enrich_http_error(505, "x", None), format!("x{}", note));
    assert_eq!(enrich_http_error(506, "x", None), "x");
    assert_eq!(enrich_http_error(499, "x", None), "x");
}

#[test]
fn blank_body_is_left_out() {
    assert_eq!(enrich_http_error(404, "Not found", Some("  \n\t ")), "Not found");
    assert_eq!(enrich_http_error(404, "Not found", Some("gone")), "Not found\n\nResponse: gone");
}
