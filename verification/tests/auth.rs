use icthub_server::auth::{
    identity_base_url, identity_me_url, identity_response_outcome, require_bearer, require_member,
    require_tag_admin, FeiyueIdentity,
};
use icthub_server::error::AppError;

fn identity(role: &str, is_lab_member: bool) -> FeiyueIdentity {
    FeiyueIdentity {
        sid: "20211010001".to_owned(),
        name: "测试".to_owned(),
        nickname: "测试".to_owned(),
        role: role.to_owned(),
        is_admin: role != "user",
        is_super_admin: role == "superadmin",
        is_lab_member,
    }
}

#[test]
fn only_members_or_superadmins_can_manage_projects() {
    assert!(!identity("user", false).can_access_icthub());
    assert!(identity("user", true).can_access_icthub());
    assert!(identity("superadmin", false).can_access_icthub());
    assert!(!identity("user", true).can_manage_tags());
    assert!(identity("admin", true).can_manage_tags());
}

#[test]
fn superadmin_role_without_flag_is_superadmin() {
    let mut who = identity("superadmin", false);
    who.is_super_admin = false;
    who.is_admin = false;
    assert!(who.is_superadmin());
    assert!(who.can_access_icthub());
    assert!(who.can_manage_tags());
    assert!(who.can_manage_projects());
}

#[test]
fn outsiders_are_forbidden() {
    assert!(matches!(require_member(&identity("user", false)), Err(AppError::Forbidden)));
    assert!(require_member(&identity("user", true)).is_ok());
    assert!(matches!(require_tag_admin(&identity("user", true)), Err(AppError::Forbidden)));
    assert!(require_tag_admin(&identity("admin", false)).is_ok());
}

#[test]
fn errors_map_to_statuses_and_codes() {
    assert_eq!(AppError::Unauthorized.status(), 401);
    assert_eq!(AppError::Forbidden.status(), 403);
    assert_eq!(AppError::NotFound.status(), 404);
    assert_eq!(AppError::BadRequest("x".to_owned()).status(), 400);
    assert_eq!(AppError::Conflict("x".to_owned()).status(), 409);
    assert_eq!(AppError::IdentityUnavailable.status(), 503);
    assert_eq!(AppError::Database.status(), 500);
    assert_eq!(AppError::NotFound.code(), "not_found");
    assert_eq!(AppError::Forbidden.code(), "internal_error");
    assert_eq!(AppError::IdentityUnavailable.code(), "identity_unavailable");
    assert_eq!(AppError::BadRequest("坏请求".to_owned()).message(), "坏请求");
}

#[test]
fn identity_base_url_drops_trailing_slashes() {
    assert_eq!(identity_base_url("http://id.example/api//"), "http://id.example/api");
    assert_eq!(identity_base_url("http://id.example"), "http://id.example");
    assert_eq!(identity_me_url("http://id.example"), "http://id.example/auth/me");
}

#[test]
fn identity_statuses_map_to_errors() {
    assert!(matches!(identity_response_outcome(401), Err(AppError::Unauthorized)));
    assert!(matches!(identity_response_outcome(500), Err(AppError::IdentityUnavailable)));
    assert!(matches!(identity_response_outcome(302), Err(AppError::IdentityUnavailable)));
    assert!(identity_response_outcome(200).is_ok());
    assert!(matches!(require_bearer(None), Err(AppError::Unauthorized)));
    assert_eq!(require_bearer(Some("Bearer t".to_owned())).ok(), Some("Bearer t".to_owned()));
}
