use binaris::api::pending_report;
use binaris::auth::{list_configured_providers, OAuthProviderConfig};
use binaris::copy::DeepCopy;
use binaris::diff::{snapshot, AnalysisSnapshot};
use binaris::error::BinarisError;
use binaris::hasher::hash_bytes;
use binaris::model::{ReportFormat, ReportKind, Role};
use binaris::pipeline::PipelineStage;
use binaris::providers::{AiMessage, LlmProvider, LocalProvider};
use binaris::report::ReportDocument;
use binaris::store::{Annotation, ChatMessage, ChatSession, MemoryStore, Organization, Project, User};

fn user(id: &str, email: &str) -> User {
    User {
        id: id.to_string(),
        email: email.to_string(),
        name: "Ada".to_string(),
        avatar_url: None,
        created_at: "2024-01-01T00:00:00+00:00".to_string(),
    }
}

fn project(id: &str, org: &str, created: &str) -> Project {
    Project {
        id: id.to_string(),
        org_id: org.to_string(),
        name: format!("project {id}"),
        description: None,
        created_by: "u1".to_string(),
        created_at: created.to_string(),
        updated_at: created.to_string(),
    }
}

fn report(id: &str, project: &str, created: &str) -> binaris::report::AnalysisReport {
    let mut r = pending_report(id, "f1", project, "a.bin", 3, hash_bytes(b"abc"));
    r.created_at = created.to_string();
    r
}

fn doc(analysis: &str, title: &str) -> ReportDocument {
    ReportDocument {
        id: format!("doc-{title}"),
        analysis_id: analysis.to_string(),
        kind: ReportKind::Executive,
        format: ReportFormat::Markdown,
        title: title.to_string(),
        content: String::new(),
        created_at: "2024-01-01T00:00:00+00:00".to_string(),
    }
}

#[test]
fn user_is_found_by_email_in_any_case() {
    let mut s = MemoryStore::new();
    s.upsert_user(user("u1", "Ada@Example.com"), Some("hash".to_string()));
    let (u, h) = s.get_user_by_email("ADA@example.COM").expect("user");
    assert_eq!(u.id, "u1");
    assert_eq!(h.map(|h| h.as_str()), Some("hash"));
    assert!(s.get_user_by_email("bob@example.com").is_none());
    assert_eq!(s.get_user("u1").map(|u| u.name.as_str()), Some("Ada"));
}

#[test]
fn user_without_password_has_no_hash() {
    let mut s = MemoryStore::new();
    s.upsert_user(user("u2", "b@x.io"), None);
    let (_, h) = s.get_user_by_email("b@x.io").expect("user");
    assert!(h.is_none());
}

#[test]
fn memberships_are_read_back() {
    let mut s = MemoryStore::new();
    s.upsert_org(Organization {
        id: "o1".to_string(),
        name: "Acme".to_string(),
        slug: "acme".to_string(),
        created_at: "2024-01-01T00:00:00+00:00".to_string(),
    });
    assert_eq!(s.find_org_for_user("u1"), None);
    s.set_membership("o1", "u1", Role::Analyst);
    s.set_membership("o1", "u1", Role::Admin);
    s.set_membership("o2", "u2", Role::Viewer);
    assert_eq!(s.get_membership("o1", "u1"), Some(Role::Admin));
    assert_eq!(s.get_membership("o1", "u2"), None);
    assert_eq!(s.find_org_for_user("u2"), Some(("o2".to_string(), Role::Viewer)));
}

#[test]
fn projects_are_listed_newest_first() {
    let mut s = MemoryStore::new();
    s.create_project(project("p1", "o1", "2024-01-01T00:00:00+00:00"));
    s.create_project(project("p2", "o2", "2024-03-01T00:00:00+00:00"));
    s.create_project(project("p3", "o1", "2024-02-01T00:00:00+00:00"));
    let ids: Vec<&str> = s.list_projects("o1").iter().map(|p| p.id.as_str()).collect();
    assert_eq!(ids, vec!["p3", "p1"]);
    assert!(s.list_projects("o9").is_empty());
    assert_eq!(s.get_project("p2").map(|p| p.org_id.as_str()), Some("o2"));
}

#[test]
fn analysis_stage_update_is_read_back() {
    let mut s = MemoryStore::new();
    s.save_analysis(report("a1", "p1", "2024-01-01T00:00:00+00:00"));
    s.save_analysis(report("a2", "p1", "2024-05-01T00:00:00+00:00"));
    s.update_analysis_stage("a1", PipelineStage::Failed, 100, Some("boom".to_string()));
    s.update_analysis_stage("missing", PipelineStage::Completed, 100, None);
    let a = s.get_analysis("a1").expect("analysis");
    assert_eq!(a.stage, PipelineStage::Failed);
    assert_eq!(a.progress, 100);
    assert_eq!(a.error.as_deref(), Some("boom"));
    assert!(s.get_analysis("missing").is_none());
    let ids: Vec<&str> = s.list_analyses("p1").iter().map(|a| a.id.as_str()).collect();
    assert_eq!(ids, vec!["a2", "a1"]);
}

#[test]
fn documents_annotations_and_messages_keep_their_order() {
    let mut s = MemoryStore::new();
    s.save_reports(vec![doc("a1", "one"), doc("a2", "two"), doc("a1", "three")]);
    let titles: Vec<&str> = s.list_reports("a1").iter().map(|d| d.title.as_str()).collect();
    assert_eq!(titles, vec!["one", "three"]);
    assert!(s.list_reports("a3").is_empty());
    s.save_annotation(Annotation {
        id: "n1".to_string(),
        analysis_id: "a1".to_string(),
        author_id: "u1".to_string(),
        target_address: Some(0x401000),
        target_kind: "function".to_string(),
        body: "entry".to_string(),
        highlight_color: None,
        created_at: "2024-01-01T00:00:00+00:00".to_string(),
        updated_at: "2024-01-01T00:00:00+00:00".to_string(),
    });
    assert_eq!(s.list_annotations("a1").len(), 1);
    s.create_chat_session(ChatSession {
        id: "c1".to_string(),
        analysis_id: "a1".to_string(),
        user_id: "u1".to_string(),
        title: "t".to_string(),
        created_at: "2024-01-01T00:00:00+00:00".to_string(),
        updated_at: "2024-01-01T00:00:00+00:00".to_string(),
    });
    for (i, text) in ["hi", "there"].iter().enumerate() {
        s.add_chat_message(ChatMessage {
            id: format!("m{i}"),
            session_id: "c1".to_string(),
            role: "user".to_string(),
            content: text.to_string(),
            citations: Vec::new(),
            created_at: "2024-01-01T00:00:00+00:00".to_string(),
        });
    }
    let msgs: Vec<&str> = s.list_chat_messages("c1").iter().map(|m| m.content.as_str()).collect();
    assert_eq!(msgs, vec!["hi", "there"]);
}

#[test]
fn snapshots_restore_their_report() {
    let mut s = MemoryStore::new();
    let r = report("a1", "p1", "2024-01-01T00:00:00+00:00");
    s.save_snapshot(AnalysisSnapshot {
        id: "s1".to_string(),
        analysis_id: "a1".to_string(),
        label: "before".to_string(),
        created_at: "2024-01-01T00:00:00+00:00".to_string(),
        report: r.clone(),
    });
    s.save_snapshot(AnalysisSnapshot {
        id: "s2".to_string(),
        analysis_id: "a1".to_string(),
        label: "after".to_string(),
        created_at: "2024-02-01T00:00:00+00:00".to_string(),
        report: r,
    });
    let labels: Vec<&str> = s.list_snapshots("a1").iter().map(|x| x.label.as_str()).collect();
    assert_eq!(labels, vec!["after", "before"]);
    assert_eq!(s.restore_snapshot("s1"), Some("a1".to_string()));
    assert_eq!(s.get_analysis("a1").map(|a| a.filename.as_str()), Some("a.bin"));
    assert_eq!(s.restore_snapshot("nope"), None);
}

#[test]
fn audit_lines_name_the_actor() {
    let mut s = MemoryStore::new();
    s.audit(Some("o1"), None, "upload", "file:f1");
    // The log is private; auditing must not disturb the other records.
    assert!(s.get_user("u1").is_none());
}

#[test]
fn error_statuses_and_messages() {
    assert_eq!(BinarisError::NotFound("x".to_string()).status_code(), 404);
    assert_eq!(BinarisError::Unauthorized("x".to_string()).status_code(), 401);
    assert_eq!(BinarisError::Forbidden("x".to_string()).status_code(), 403);
    assert_eq!(BinarisError::Validation("x".to_string()).status_code(), 400);
    assert_eq!(BinarisError::UnsupportedFormat("x".to_string()).status_code(), 400);
    assert_eq!(BinarisError::Conflict("x".to_string()).status_code(), 409);
    assert_eq!(BinarisError::RateLimited("x".to_string()).status_code(), 429);
    assert_eq!(BinarisError::Database("x".to_string()).status_code(), 500);
    assert_eq!(BinarisError::NotFound("analysis".to_string()).message(), "not found: analysis");
    assert_eq!(BinarisError::Ai("down".to_string()).message(), "AI provider error: down");
    assert_eq!(BinarisError::Io("disk full".to_string()).message(), "disk full");
}

fn env(pairs: &[(&str, &str)]) -> Vec<(String, String)> {
    pairs.iter().map(|(k, v)| (k.to_string(), v.to_string())).collect()
}

#[test]
fn providers_configured_by_environment() {
    let e = env(&[
        ("BINARIS_OAUTH_GOOGLE_CLIENT_ID", "gid"),
        ("BINARIS_OAUTH_GOOGLE_CLIENT_SECRET", "gsecret"),
        ("BINARIS_OAUTH_OIDC_CLIENT_ID", "oid"),
        ("BINARIS_OAUTH_OIDC_CLIENT_SECRET", "osecret"),
        ("BINARIS_OAUTH_GITHUB_CLIENT_ID", "only-id"),
    ]);
    assert_eq!(list_configured_providers(&e), vec!["google".to_string()]);
    let mut e2 = e.clone();
    e2.push(("BINARIS_OIDC_AUTH_URL".to_string(), "https://id.example/auth".to_string()));
    e2.push(("BINARIS_OIDC_TOKEN_URL".to_string(), "https://id.example/token".to_string()));
    assert_eq!(list_configured_providers(&e2), vec!["google".to_string(), "oidc".to_string()]);
    let g = OAuthProviderConfig::from_env("google", &e).expect("google");
    assert_eq!(g.client_id, "gid");
    assert_eq!(g.redirect_uri, "http://127.0.0.1:8080/v1/auth/oauth/google/callback");
    assert!(OAuthProviderConfig::from_env("github", &e).is_none());
}

#[test]
fn local_provider_answers_through_the_trait() {
    let p = LocalProvider;
    let msgs = vec![AiMessage { role: "user".to_string(), content: "what is this?".to_string() }];
    let out = LlmProvider::complete(&p, &msgs).expect("local never fails");
    assert!(out.ends_with("what is this?"));
    assert!(out.starts_with("Local evidence-bound response"));
}

#[test]
fn snapshot_holds_a_deep_copy() {
    let mut r = report("a9", "p1", "2024-01-01T00:00:00+00:00");
    r.iocs.push("evil.example".to_string());
    let s = snapshot(&r, "label".to_string());
    assert_eq!(s.analysis_id, "a9");
    assert_eq!(s.label, "label");
    assert_eq!(s.report.id, r.id);
    assert_eq!(s.report.iocs, r.iocs);
    assert_eq!(s.report.hashes.sha256, r.hashes.sha256);
    let c = r.deep_copy();
    assert_eq!(c.filename, r.filename);
    assert_eq!(c.created_at, r.created_at);
    assert_eq!(c.iocs, vec!["evil.example".to_string()]);
}

#[test]
fn bucket_urls_drop_trailing_slashes() {
    let s = binaris::storage::S3HttpStore::new("http://127.0.0.1:9000//".to_string(), "binaris".to_string());
    assert_eq!(s.url("org/o1/project/p1/f1"), "http://127.0.0.1:9000/binaris/org/o1/project/p1/f1");
    let plain = binaris::storage::S3HttpStore::new("http://minio".to_string(), "b".to_string());
    assert_eq!(plain.url("k"), "http://minio/b/k");
}
