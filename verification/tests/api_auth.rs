use binaris::api::{
    bearer_token, callback_code, check_registration, check_upload, empty_identity, empty_malware,
    extract_id_literal, graph_kind, graphql_action, is_file_field, oauth_org, oauth_profile,
    pending_report, registration_org_name, search_report, session_title, slugify, storage_key,
    token_form, CallbackQuery, GraphKind, GraphqlAction, RegisterRequest,
};
use binaris::auth::{
    claims_at, env_key, generate_api_key, hash_api_key, hash_password, verify_password,
    OAuthProviderConfig,
};
use binaris::model::{FileHashes, ImportEntry, RiskLevel, Role};
use binaris::storage::LocalObjectStore;

fn hashes() -> FileHashes {
    FileHashes {
        md5: "m".into(),
        sha1: "s".into(),
        sha256: "h".into(),
        sha3_256: "t".into(),
        blake3: "b".into(),
        imphash: None,
        ssdeep: None,
        tlsh: None,
    }
}

#[test]
fn bearer_tokens() {
    assert_eq!(bearer_token(Some("Bearer abc.def")).ok().as_deref(), Some("abc.def"));
    let missing = bearer_token(None).unwrap_err();
    assert_eq!((missing.status, missing.message.as_str()), (401, "missing authorization"));
    let basic = bearer_token(Some("Basic xyz")).unwrap_err();
    assert_eq!((basic.status, basic.message.as_str()), (401, "expected Bearer token"));
}

#[test]
fn upload_rules() {
    assert!(is_file_field("file", false));
    assert!(is_file_field("binary", false));
    assert!(is_file_field("other", true));
    assert!(!is_file_field("meta", false));
    let e = check_upload(&None).unwrap_err();
    assert_eq!((e.status, e.message.as_str()), (400, "missing file field"));
    let e = check_upload(&Some(vec![])).unwrap_err();
    assert_eq!((e.status, e.message.as_str()), (400, "empty file"));
    assert!(check_upload(&Some(vec![1, 2, 3])).is_ok());
    assert_eq!(storage_key("o1", "p1", "f1"), "org/o1/project/p1/f1");
}

#[test]
fn pending_reports_are_queued() {
    let r = pending_report("a", "f", "p", "x.exe", 12, hashes());
    assert_eq!(r.stage, binaris::pipeline::PipelineStage::Queued);
    assert_eq!(r.progress, 0);
    assert_eq!(r.executive_summary, "Queued");
    assert_eq!(r.network_intel, "{}");
    assert_eq!(r.decomp_backends, "[]");
    assert_eq!(r.identity.endianness, "unknown");
    assert_eq!(empty_identity().bits, 0);
    assert_eq!(empty_malware().reasoning, "pending");
}

#[test]
fn registration_rules() {
    assert_eq!(slugify("Alice.Smith@Example.COM"), "alice-smith-example-com");
    assert_eq!(slugify(&"a".repeat(60)).len(), 48);
    let short = RegisterRequest { email: "a@b.c".into(), password: "1234567".into(), name: "Al".into(), org_name: None };
    let e = check_registration(&short).unwrap_err();
    assert_eq!((e.status, e.message.as_str()), (400, "password must be at least 8 characters"));
    let ok = RegisterRequest { password: "12345678".into(), ..short.clone() };
    assert!(check_registration(&ok).is_ok());
    assert_eq!(registration_org_name(&ok), "Al's Org");
    let named = RegisterRequest { org_name: Some("Acme".into()), ..ok };
    assert_eq!(registration_org_name(&named), "Acme");
}

#[test]
fn oauth_callback_rules() {
    let q = CallbackQuery { code: Some("c".into()), state: None, error: Some("access_denied".into()) };
    let e = callback_code(&q).unwrap_err();
    assert_eq!((e.status, e.message.as_str()), (400, "access_denied"));
    let q = CallbackQuery { code: None, state: None, error: None };
    assert_eq!(callback_code(&q).unwrap_err().message, "missing code");
    let q = CallbackQuery { code: Some("xyz".into()), state: None, error: None };
    assert_eq!(callback_code(&q).unwrap(), "xyz");
    let (email, name, avatar) = oauth_profile(None, Some("octo".into()), None, None, Some("av".into()));
    assert_eq!((email.as_str(), name.as_str(), avatar.as_deref()), ("octo", "octo", Some("av")));
    let (email, name, avatar) = oauth_profile(None, None, None, None, None);
    assert_eq!((email.as_str(), name.as_str(), avatar), ("unknown@oauth.local", "unknown@oauth.local", None));
    assert_eq!(oauth_org("Ann", "0123456789abcdef"), ("Ann Org".to_string(), "oauth-01234567".to_string()));
}

#[test]
fn oauth_provider_settings() {
    assert_eq!(env_key("github", "CLIENT_ID"), "BINARIS_OAUTH_GITHUB_CLIENT_ID");
    let g = OAuthProviderConfig::from_settings("google", Some("id".into()), Some("sec".into()), None, None, None, None).unwrap();
    assert_eq!(g.redirect_uri, "http://127.0.0.1:8080/v1/auth/oauth/google/callback");
    assert_eq!(g.token_url, "https://oauth2.googleapis.com/token");
    assert_eq!(g.scopes, vec!["openid", "email", "profile"]);
    assert!(OAuthProviderConfig::from_settings("google", None, Some("sec".into()), None, None, None, None).is_none());
    assert!(OAuthProviderConfig::from_settings("gitlab", Some("i".into()), Some("s".into()), None, None, None, None).is_none());
    assert!(OAuthProviderConfig::from_settings("oidc", Some("i".into()), Some("s".into()), None, None, None, None).is_none());
    let o = OAuthProviderConfig::from_settings(
        "oidc",
        Some("i".into()),
        Some("s".into()),
        Some("https://app/cb".into()),
        Some("https://idp/auth".into()),
        Some("https://idp/token".into()),
        None,
    )
    .unwrap();
    assert_eq!(o.userinfo_url, "");
    assert_eq!(o.redirect_uri, "https://app/cb");
    let form = token_form(&o, "code1");
    assert_eq!(form[2], ("code".to_string(), "code1".to_string()));
    assert_eq!(form[4], ("grant_type".to_string(), "authorization_code".to_string()));
}

#[test]
fn graph_and_graphql_routing() {
    assert_eq!(graph_kind("dfg").unwrap(), GraphKind::Dfg);
    assert_eq!(graph_kind("network").unwrap(), GraphKind::Network);
    let e = graph_kind("tree").unwrap_err();
    assert_eq!(e.status, 400);
    assert_eq!(graphql_action("{ oauthProviders }"), GraphqlAction::Providers);
    assert_eq!(graphql_action("{ PROJECTS { id } }"), GraphqlAction::Projects);
    assert_eq!(graphql_action("{ projects analysis }"), GraphqlAction::Analysis);
    assert_eq!(
        extract_id_literal("query { Analysis(id: \"abc-123\") { id } }").as_deref(),
        Some("abc-123")
    );
    assert_eq!(extract_id_literal("query { analysis(id:  'x9',y) }").as_deref(), Some("x9"));
    assert_eq!(extract_id_literal("query { analysis(id: abc"), None);
    assert_eq!(extract_id_literal("query { projects }"), None);
}

#[test]
fn search_matches_any_case() {
    let mut r = pending_report("a", "f", "p", "x.exe", 12, hashes());
    r.imports.push(ImportEntry { module: "KERNEL32.dll".into(), symbol: "CreateFileW".into(), ordinal: None, address: None, risk: RiskLevel::Info, tags: vec![] });
    r.imports.push(ImportEntry { module: "user32.dll".into(), symbol: "MessageBoxA".into(), ordinal: None, address: None, risk: RiskLevel::Info, tags: vec![] });
    let hits = search_report(&r, "kernel32", None);
    assert_eq!(hits.imports, vec![0]);
    let hits = search_report(&r, "messagebox", Some("exports"));
    assert!(hits.imports.is_empty());
    let hits = search_report(&r, "messagebox", Some("imports"));
    assert_eq!(hits.imports, vec![1]);
    assert_eq!(session_title(&"é".repeat(70)).chars().count(), 64);
}

#[test]
fn password_roundtrip() {
    let hash = hash_password("correct horse").unwrap();
    assert!(verify_password("correct horse", &hash).unwrap());
    assert!(!verify_password("wrong", &hash).unwrap());
    assert!(verify_password("x", "not a hash").is_err());
}

#[test]
fn api_keys() {
    let k = generate_api_key();
    assert!(k.secret.starts_with("bnr_"));
    assert_eq!(k.secret.len(), 68);
    assert_eq!(k.prefix, k.secret[..12]);
    assert_eq!(k.hash, hash_api_key(&k.secret));
    assert_eq!(hash_api_key("abc"), "ba7816bf8f01cfea414140de5dae2223b00361a396177a9cb410ff61f20015ad");
}

#[test]
fn session_claims() {
    let c = claims_at("u1", "a@b.co", "o1", Role::Analyst, 1_000, 24, "binaris");
    assert_eq!(c.exp, 1_000 + 24 * 3600);
    assert_eq!(c.iat, 1_000);
    assert_eq!(c.iss, "binaris");
    assert_eq!(c.email, "a@b.co");
}

#[test]
fn object_paths() {
    let s = LocalObjectStore::new("/data");
    assert_eq!(s.path_for("org/1/../f"), "/data/org/1/_/f");
    assert_eq!(s.path_for("/etc/passwd"), "/etc/passwd");
    assert_eq!(s.path_for("a...b"), "/data/a_.b");
    assert_eq!(LocalObjectStore::new("/data/").path_for("x"), "/data/x");
    assert_eq!(LocalObjectStore::new("").path_for("x"), "x");
}
