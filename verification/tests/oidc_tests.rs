use soulbook::error::AppError;
use soulbook::oidc::{
    access_token_from, after_email_lookup, after_subject_lookup, build_authorize_url, callback_code_and_state, generate_code_verifier,
    has_external_subject, link_email_user, local_user_id_from_row, login_error_url,
    new_local_user_id, new_user_profile, oidc_endpoint, oidc_state_expiry, pkce_challenge,
    provider_failure, require_oidc_config, session_token_times, sso_redirect_url,
    require_valid_state, token_request_form, verify_soulauth_identity, LocalUserAction,
    ProviderCall, SoulAuthOidcConfig, UserInfo,
};

fn test_config() -> SoulAuthOidcConfig {
    SoulAuthOidcConfig {
        issuer: "https://auth.example.test".to_string(),
        client_id: "soulbook".to_string(),
        client_secret: "secret".to_string(),
        redirect_uri: "https://book.example.test/api/docs/auth/soulauth/callback".to_string(),
        post_logout_redirect_uri: None,
    }
}

fn info() -> UserInfo {
    UserInfo {
        sub: Some("sub-1".to_string()),
        email: Some("  Alice@Example.COM ".to_string()),
        email_verified: Some(true),
        name: None,
        username: None,
        picture: None,
        avatar_url: None,
    }
}

#[test]
fn authorize_url_contains_required_oidc_parameters() {
    let url = build_authorize_url(&test_config(), "state-token", "nonce-value", "pkce-hash");

    assert!(url.contains("response_type=code"));
    assert!(url.contains("scope=openid"));
    assert!(url.contains("code_challenge_method=S256"));
    assert!(url.contains("state="));
}

#[test]
fn authorize_url_never_carries_the_client_secret() {
    let url = build_authorize_url(&test_config(), "state-token", "nonce-value", "pkce-hash");
    assert!(!url.contains("client_secret"));
    assert!(!url.contains("=secret"));
    let form = token_request_form("code", &test_config(), "v");
    assert!(form.iter().any(|(k, v)| k == "client_secret" && v == "secret"));
}

#[test]
fn authorize_url_is_exactly_form_encoded() {
    let mut config = test_config();
    config.issuer = "https://auth.example.test//".to_string();
    let url = build_authorize_url(&config, "s t", "n&1", "c");
    assert_eq!(
        url,
        "https://auth.example.test/api/oidc/authorize?response_type=code&client_id=soulbook&redirect_uri=https%3A%2F%2Fbook.example.test%2Fapi%2Fdocs%2Fauth%2Fsoulauth%2Fcallback&scope=openid+profile+email&state=s+t&nonce=n%261&code_challenge=c&code_challenge_method=S256"
    );
}

#[test]
fn endpoints_and_token_form() {
    assert_eq!(oidc_endpoint("https://a.test/", "/x"), "https://a.test/x");
    let form = token_request_form("code-1", &test_config(), "ver");
    let keys: Vec<&str> = form.iter().map(|(k, _)| k.as_str()).collect();
    assert_eq!(
        keys,
        vec!["grant_type", "code", "redirect_uri", "client_id", "client_secret", "code_verifier"]
    );
    assert_eq!(form[0].1, "authorization_code");
    assert_eq!(form[5].1, "ver");
}

#[test]
fn pkce_challenge_is_unpadded_url_safe_sha256() {
    // RFC 7636, appendix B.
    assert_eq!(
        pkce_challenge("dBjftJeZ4CVP-mB92K27uhbUJU1p1r_wW1gFWFOEjXk"),
        "E9Melhoa2OwvFrEMTJguCHaoeK1t8URWbuGJSstw-cM"
    );
}

#[test]
fn verifiers_and_ids_have_uuid_shape() {
    let v = generate_code_verifier();
    assert_eq!(v.chars().count(), 73);
    assert_eq!(v.chars().nth(36), Some('-'));
    assert_eq!(new_local_user_id().len(), 36);
}

#[test]
fn local_user_rows() {
    assert_eq!(local_user_id_from_row(Some("local_user:⟨abc⟩")), "abc");
    assert_eq!(local_user_id_from_row(Some("`x`")), "x");
    assert_eq!(local_user_id_from_row(None), "");
    assert!(has_external_subject(Some(" s ")));
    assert!(!has_external_subject(Some("  ")));
    assert!(!has_external_subject(None));
    assert_eq!(link_email_user(Some("local_user:u9"), None).unwrap(), "u9");
    assert!(matches!(
        link_email_user(Some("local_user:u9"), Some("other")),
        Err(AppError::Conflict(m)) if m == "A local user with this verified email is already linked to another external identity"
    ));
}

#[test]
fn identities_are_checked() {
    let id = verify_soulauth_identity(&info()).unwrap();
    assert_eq!(id.subject, "sub-1");
    assert_eq!(id.email, "alice@example.com");
    let mut i = info();
    i.sub = Some(" ".to_string());
    assert!(matches!(verify_soulauth_identity(&i), Err(AppError::BadRequest(m)) if m == "SoulAuth account has no subject"));
    let mut i = info();
    i.email_verified = None;
    assert!(matches!(verify_soulauth_identity(&i), Err(AppError::BadRequest(m)) if m == "SoulAuth account email is not verified"));
    let mut i = info();
    i.email = Some("   ".to_string());
    assert!(matches!(verify_soulauth_identity(&i), Err(AppError::BadRequest(m)) if m == "SoulAuth account has no email"));
}

#[test]
fn new_user_profiles() {
    let (name, avatar) = new_user_profile(&info(), "alice@example.com");
    assert_eq!(name, "alice");
    assert_eq!(avatar, "");
    let mut i = info();
    i.username = Some("al".to_string());
    i.avatar_url = Some("a.png".to_string());
    assert_eq!(new_user_profile(&i, "x@y"), ("al".to_string(), "a.png".to_string()));
    i.name = Some("Alice".to_string());
    i.picture = Some("p.png".to_string());
    assert_eq!(new_user_profile(&i, "x@y"), ("Alice".to_string(), "p.png".to_string()));
}

#[test]
fn callback_steps() {
    assert_eq!(login_error_url("access denied"), "/docs/login?error=access%20denied");
    assert!(matches!(callback_code_and_state(None, None), Err(AppError::BadRequest(m)) if m == "missing code"));
    assert!(matches!(
        callback_code_and_state(Some("c".to_string()), None),
        Err(AppError::BadRequest(m)) if m == "missing state"
    ));
    assert_eq!(
        callback_code_and_state(Some("c".to_string()), Some("s".to_string())).unwrap(),
        ("c".to_string(), "s".to_string())
    );
    assert!(matches!(access_token_from(Some(" ".to_string())), Err(AppError::Internal(m)) if m == "SoulAuth did not return access_token"));
    assert_eq!(access_token_from(Some("tok".to_string())).unwrap(), "tok");
    assert_eq!(
        sso_redirect_url("a b", Some("/docs/x".to_string()), "https://app"),
        "/sso?token=a%20b&next=%2Fdocs%2Fx"
    );
    assert_eq!(
        sso_redirect_url("t", Some("  ".to_string()), "https://app"),
        "/sso?token=t&next=https%3A%2F%2Fapp"
    );
    assert!(matches!(
        provider_failure(ProviderCall::TokenExchange, "bad"),
        AppError::BadRequest(m) if m == "SoulAuth token exchange failed: bad"
    ));
    assert!(matches!(
        provider_failure(ProviderCall::UserInfo, "x"),
        AppError::BadRequest(m) if m == "SoulAuth userinfo failed: x"
    ));
    assert!(matches!(require_oidc_config(None), Err(AppError::BadRequest(m)) if m == "SoulAuth OIDC login is not configured"));
    assert!(require_oidc_config(Some(test_config())).is_ok());
    assert_eq!(oidc_state_expiry(1_000), 1_600);
    assert_eq!(session_token_times(10, 3600), (10, 3610));
}

fn assert_uuid_v4(s: &str) {
    let c: Vec<char> = s.chars().collect();
    assert_eq!(c.len(), 36, "{s}");
    for (i, ch) in c.iter().enumerate() {
        if [8, 13, 18, 23].contains(&i) {
            assert_eq!(*ch, '-', "{s}");
        } else {
            assert!(ch.is_ascii_hexdigit() && !ch.is_ascii_uppercase(), "{s}");
        }
    }
    assert_eq!(c[14], '4', "{s}");
    assert!(['8', '9', 'a', 'b'].contains(&c[19]), "{s}");
}

#[test]
fn random_ids_are_lowercase_v4_uuids() {
    assert_uuid_v4(&new_local_user_id());
    let v = generate_code_verifier();
    assert_eq!(v.len(), 73);
    assert_uuid_v4(&v[..36]);
    assert_eq!(&v[36..37], "-");
    assert_uuid_v4(&v[37..]);
    assert_ne!(new_local_user_id(), new_local_user_id());
}

#[test]
fn subject_lookup_uses_the_found_user() {
    assert_eq!(after_subject_lookup(None), None);
    assert_eq!(after_subject_lookup(Some(Some("local_user:⟨u-1⟩"))), Some("u-1".to_string()));
    assert_eq!(after_subject_lookup(Some(Some("u-2"))), Some("u-2".to_string()));
    assert_eq!(after_subject_lookup(Some(None)), Some(String::new()));
}

#[test]
fn email_lookup_links_creates_or_refuses() {
    assert_eq!(after_email_lookup(None).unwrap(), LocalUserAction::Create);
    assert_eq!(
        after_email_lookup(Some((Some("local_user:abc"), None))).unwrap(),
        LocalUserAction::Link("abc".to_string())
    );
    assert_eq!(
        after_email_lookup(Some((Some("local_user:abc"), Some("   ")))).unwrap(),
        LocalUserAction::Link("abc".to_string())
    );
    match after_email_lookup(Some((Some("local_user:abc"), Some("other-sub")))) {
        Err(AppError::Conflict(m)) => assert_eq!(
            m,
            "A local user with this verified email is already linked to another external identity"
        ),
        other => panic!("expected a conflict, got {other:?}"),
    }
}

#[test]
fn unreadable_state_is_a_bad_request() {
    assert_eq!(require_valid_state(Some(7)).unwrap(), 7);
    match require_valid_state::<u8>(None) {
        Err(AppError::BadRequest(m)) => assert_eq!(m, "invalid or expired state"),
        other => panic!("expected a bad request, got {other:?}"),
    }
}

#[test]
fn blank_email_is_refused_after_trimming() {
    let mut u = info();
    u.email = Some("   ".to_string());
    match verify_soulauth_identity(&u) {
        Err(AppError::BadRequest(m)) => assert_eq!(m, "SoulAuth account has no email"),
        other => panic!("expected a bad request, got {other:?}"),
    }
    u.email = None;
    assert!(matches!(verify_soulauth_identity(&u), Err(AppError::BadRequest(_))));
}
