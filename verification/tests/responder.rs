use crate_registry::guards::AuthError;
use crate_registry::models::{code_is_qualifying, RoleCode};
use crate_registry::responder::{error_body, server_error_response, status_code, Cors};

#[test]
fn statuses_follow_the_taxonomy() {
    assert_eq!(status_code(AuthError::Unauthenticated), 401);
    assert_eq!(status_code(AuthError::Unauthorized), 403);
    assert_eq!(status_code(AuthError::InternalError), 500);
}

#[test]
fn bodies_are_opaque() {
    assert_eq!(error_body(AuthError::Unauthenticated), "{\"error\": \"Unauthenticated\"}");
    assert_eq!(error_body(AuthError::Unauthorized), "{\"error\": \"Unauthorized\"}");
    assert_eq!(error_body(AuthError::InternalError), "{\"error\": \"InternalError\"}");
}

#[test]
fn escaped_failures_collapse_to_opaque_500() {
    let (status, body) = server_error_response();
    assert_eq!(status, 500);
    assert_eq!(body, "Error");
}

#[test]
fn qualifying_codes_are_admin_and_editor() {
    assert!(code_is_qualifying(RoleCode::Admin));
    assert!(code_is_qualifying(RoleCode::Editor));
    assert!(!code_is_qualifying(RoleCode::Viewer));
}

#[test]
fn cors_headers_are_fixed() {
    let headers = Cors.response_headers();
    assert_eq!(headers.len(), 4);
    assert_eq!(headers[0].0, "Access-Control-Allow-Origin");
    assert_eq!(headers[0].1, "*");
    assert_eq!(headers[1].0, "Access-Control-Allow-Methods");
    assert_eq!(headers[1].1, "GET, POST, PUT, DELETE");
    assert_eq!(headers[2].0, "Access-Control-Allow-Headers");
    assert_eq!(headers[2].1, "*");
    assert_eq!(headers[3].0, "Access-Control-Allow-Credentials");
    assert_eq!(headers[3].1, "true");
}
