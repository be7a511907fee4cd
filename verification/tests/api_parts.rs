use auto_claude::api::dto::chat::SteeringResponse;
use auto_claude::api::dto::memory::MemoryQuery;
use auto_claude::api::errors::ApiError;
use auto_claude::api::routes::frontend::{is_frontend_route, path_has_extension};
use auto_claude::domain::chat::models::SteeringSubmission;

#[test]
fn frontend_routes_exclude_api_and_files() {
    assert!(is_frontend_route("settings/skills"));
    assert!(is_frontend_route(""));
    assert!(!is_frontend_route("agent/run"));
    assert!(!is_frontend_route("health"));
    assert!(!is_frontend_route("static/app.js"));
    assert!(!is_frontend_route("docs"));
    assert!(!is_frontend_route("favicon.ico"));
    assert!(is_frontend_route("settings/.hidden"));
}

#[test]
fn extension_matches_std_path() {
    for path in [
        "a.b", ".a", "a.", "..", "...", "a/b.c/", "a/b.c/.", "a/..", "x/.", ".", "", "dir/file",
        "dir/.env", "a/b/c.tar.gz", "/", "//x.y//", "a.b/c", "a..b",
    ] {
        assert_eq!(
            path_has_extension(path),
            std::path::Path::new(path).extension().is_some(),
            "{path}"
        );
    }
}

#[test]
fn errors_carry_message_and_status() {
    let e = ApiError::not_found("approval not found: x".to_string());
    assert_eq!(e.message(), "approval not found: x");
    assert_eq!(e.status_code(), 404);
    assert_eq!(ApiError::bad_request("b".to_string()).status_code(), 400);
    assert_eq!(ApiError::payload_too_large("p".to_string()).status_code(), 413);
    assert_eq!(ApiError::service_unavailable("s".to_string()).status_code(), 503);
    assert_eq!(ApiError::internal("i".to_string()).status_code(), 500);
}

#[test]
fn memory_query_prefers_user_then_agent() {
    let q = MemoryQuery {
        user_id: Some("  ".to_string()),
        agent_id: Some(" agent-alias ".to_string()),
    };
    assert_eq!(q.effective_user_id().as_deref(), Some("agent-alias"));
    let q = MemoryQuery {
        user_id: Some(" u1 ".to_string()),
        agent_id: Some("a".to_string()),
    };
    assert_eq!(q.effective_user_id().as_deref(), Some("u1"));
    let q = MemoryQuery {
        user_id: None,
        agent_id: None,
    };
    assert_eq!(q.effective_user_id(), None);
}

#[test]
fn steering_response_reports_submission() {
    let r = SteeringResponse::from(SteeringSubmission {
        status: "queued".to_string(),
        session_id: "s1".to_string(),
    });
    assert_eq!(r.status, "queued");
    assert_eq!(r.session_id, "s1");
}
