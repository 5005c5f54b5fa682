use serde_json::Value;
use soulbook::error::AppError;
use soulbook::git_sync::{
    classify_github_status, export_documents_to_markdown, format_document_markdown,
    git_repo_record_id, github_contents_url, github_failure_message, merge_git_repo_payload,
    normalize_path_prefix, normalize_record_key, parse_github_repo_url, put_file_request,
    repo_create_values, require_github_token, require_valid_repo, space_record_ref, sync_outcome,
    CreateRepoRequest, Document, ExportedFile, GitHubReply, GitHubRepoRef, GitRepoRecord,
    GitSyncResult, GitSyncRun, RepoValue, SyncAction, SyncEvent,
};

fn document(id: &str, slug: &str, title: &str, is_deleted: bool) -> Document {
    Document {
        id: Some(id.to_string()),
        space_id: "space1".to_string(),
        title: title.to_string(),
        slug: slug.to_string(),
        content: "Body".to_string(),
        excerpt: Some("Summary".to_string()),
        is_public: false,
        status: Some("draft".to_string()),
        parent_id: None,
        order_index: 0,
        author_id: "user1".to_string(),
        last_editor_id: None,
        view_count: 0,
        word_count: 1,
        reading_time: 1,
        updated_by: None,
        is_deleted,
        deleted_at: None,
        deleted_by: None,
        created_at: None,
        updated_at: None,
    }
}

fn field<'a, V>(fields: &'a [(String, RepoValue<V>)], name: &str) -> &'a RepoValue<V> {
    &fields.iter().find(|(k, _)| k == name).expect("field is present").1
}

fn text(v: &RepoValue<Value>) -> String {
    match v {
        RepoValue::Text(s) => s.clone(),
        _ => panic!("not a text value"),
    }
}

#[test]
fn parses_https_and_ssh_github_urls() {
    assert_eq!(
        parse_github_repo_url("https://github.com/3W1shes/awesome-design-md.git").unwrap(),
        GitHubRepoRef {
            owner: "3W1shes".to_string(),
            repo: "awesome-design-md".to_string()
        }
    );
    assert_eq!(
        parse_github_repo_url("git@github.com:RcityHunter/SoulBook.git").unwrap(),
        GitHubRepoRef {
            owner: "RcityHunter".to_string(),
            repo: "SoulBook".to_string()
        }
    );
}

#[test]
fn normalizes_path_prefix() {
    assert_eq!(normalize_path_prefix("docs"), "docs/");
    assert_eq!(normalize_path_prefix("/docs/"), "docs/");
    assert_eq!(normalize_path_prefix(""), "");
}

#[test]
fn exports_documents_to_markdown_files() {
    let docs = vec![document("doc1", "hello", "Hello", false)];

    let files = export_documents_to_markdown("/docs/", &docs);

    assert_eq!(files.len(), 1);
    assert_eq!(files[0].path, "docs/hello.md");
    assert_eq!(files[0].content, "# Hello\n\n> Summary\n\nBody\n");
}

#[test]
fn merge_git_repo_payload_preserves_defaults_and_applies_update() {
    let body = vec![
        ("branch".to_string(), Value::String("docs".to_string())),
        ("auto_sync".to_string(), Value::Bool(true)),
    ];
    let merged = merge_git_repo_payload("repo-1", Some(body), "2026-04-29T00:00:00Z");
    assert_eq!(text(field(&merged, "id")), "git_repo:repo-1");
    assert!(matches!(field(&merged, "branch"), RepoValue::Given(Value::String(s)) if s == "docs"));
    assert!(matches!(field(&merged, "auto_sync"), RepoValue::Given(Value::Bool(true))));
    assert_eq!(text(field(&merged, "path_prefix")), "docs/");
    assert_eq!(text(field(&merged, "updated_at")), "2026-04-29T00:00:00Z");
}

#[test]
fn merge_without_object_keeps_defaults_only() {
    let merged = merge_git_repo_payload::<Value>("repo-2", None, "2026-04-29T00:00:00Z");
    assert_eq!(merged.len(), 10);
    assert_eq!(text(field(&merged, "branch")), "main");
    assert_eq!(text(field(&merged, "direction")), "bidirectional");
    assert!(matches!(field(&merged, "auto_sync"), RepoValue::Flag(false)));
    assert!(matches!(field(&merged, "last_synced_at"), RepoValue::Null));
    assert!(merged.iter().all(|(k, _)| k != "updated_at"));
}

#[test]
fn merge_takes_last_value_of_a_repeated_field() {
    let body = vec![
        ("branch".to_string(), Value::String("first".to_string())),
        ("branch".to_string(), Value::String("second".to_string())),
        ("extra".to_string(), Value::Null),
    ];
    let merged = merge_git_repo_payload("r", Some(body), "now");
    assert!(matches!(field(&merged, "branch"), RepoValue::Given(Value::String(s)) if s == "second"));
    assert!(matches!(field(&merged, "extra"), RepoValue::Given(Value::Null)));
    assert_eq!(merged.iter().filter(|(k, _)| k == "branch").count(), 1);
    assert_eq!(text(field(&merged, "updated_at")), "now");
}

#[test]
fn repo_url_round_trip_for_plain_names() {
    for url in [
        "https://github.com/owner-1/repo_2",
        "git@github.com:owner-1/repo_2",
        "  https://github.com/owner-1/repo_2/  ",
        "https://github.com/owner-1/repo_2.git",
    ] {
        let parsed = parse_github_repo_url(url).unwrap();
        assert_eq!(parsed.owner, "owner-1");
        assert_eq!(parsed.repo, "repo_2");
    }
}

#[test]
fn rejects_other_hosts_and_other_paths() {
    assert_eq!(
        parse_github_repo_url("https://gitlab.com/a/b").unwrap_err(),
        "Only github.com repository URLs are supported"
    );
    assert_eq!(
        parse_github_repo_url("https://github.com/a/b/c").unwrap_err(),
        "GitHub repository URL must be owner/repo"
    );
    assert_eq!(
        parse_github_repo_url("https://github.com/a").unwrap_err(),
        "GitHub repository URL must be owner/repo"
    );
}

#[test]
fn normalized_prefix_is_stable() {
    for p in ["docs", "/docs/", " //a/b// ", "", "///"] {
        let once = normalize_path_prefix(p);
        assert_eq!(normalize_path_prefix(&once), once);
    }
    assert_eq!(normalize_path_prefix("///"), "");
    assert_eq!(normalize_path_prefix(" //a/b// "), "a/b/");
    // A prefix whose slashes hide whitespace is the one case that changes again.
    assert_eq!(normalize_path_prefix("/ docs"), " docs/");
    assert_eq!(normalize_path_prefix(" docs/"), "docs/");
}

#[test]
fn export_skips_deleted_documents_and_falls_back_to_id() {
    let mut blank = document("doc2", "  ", "Second", false);
    blank.excerpt = Some("   ".to_string());
    let mut untitled = document("doc3", "", "Third", false);
    untitled.id = None;
    let docs = vec![
        document("doc1", "hello", "Hello", true),
        blank,
        untitled,
    ];
    let files = export_documents_to_markdown("notes", &docs);
    assert_eq!(files.len(), 2);
    assert_eq!(files[0].path, "notes/doc2.md");
    assert_eq!(files[0].content, "# Second\n\nBody\n");
    assert_eq!(files[1].path, "notes/untitled.md");
    for f in &files {
        assert!(f.path.starts_with("notes/") && f.path.ends_with(".md"));
    }
}

#[test]
fn formats_document_markdown_without_excerpt() {
    let mut d = document("d", "s", "  Title  ", false);
    d.excerpt = None;
    d.content = "\n  text \n".to_string();
    assert_eq!(format_document_markdown(&d), "# Title\n\ntext\n");
}

#[test]
fn record_keys_and_urls() {
    assert_eq!(normalize_record_key(" space:⟨abc⟩ "), "abc");
    assert_eq!(normalize_record_key("`abc`"), "abc");
    assert_eq!(space_record_ref("space:\"xyz\""), "space:xyz");
    let repo = GitHubRepoRef {
        owner: "o".to_string(),
        repo: "r".to_string(),
    };
    assert_eq!(
        github_contents_url(&repo, "docs/a.md"),
        "https://api.github.com/repos/o/r/contents/docs/a.md"
    );
    assert_eq!(git_repo_record_id("7"), "git_repo:7");
}

#[test]
fn put_request_encodes_content_in_base64() {
    let file = ExportedFile {
        path: "docs/a.md".to_string(),
        content: "# Hi\n".to_string(),
    };
    let req = put_file_request(&file, "main", Some("abc".to_string()));
    assert_eq!(req.message, "sync: update docs/a.md");
    assert_eq!(req.content, "IyBIaQo=");
    assert_eq!(req.branch, "main");
    assert_eq!(req.sha.as_deref(), Some("abc"));
}

#[test]
fn sync_run_writes_each_file_then_finishes() {
    let files = vec![
        ExportedFile {
            path: "a.md".to_string(),
            content: "A".to_string(),
        },
        ExportedFile {
            path: "b.md".to_string(),
            content: "B".to_string(),
        },
    ];
    let (mut run, action) = GitSyncRun::start("main", files);
    assert!(matches!(action, SyncAction::FetchExistingSha { ref path } if path == "a.md"));
    let action = run.step(SyncEvent::ExistingSha(None));
    match action {
        SyncAction::PutFile { path, request } => {
            assert_eq!(path, "a.md");
            assert_eq!(request.sha, None);
            assert_eq!(request.content, "QQ==");
        }
        _ => panic!("expected a write"),
    }
    let action = run.step(SyncEvent::FilePut("c1".to_string()));
    assert!(matches!(action, SyncAction::FetchExistingSha { ref path } if path == "b.md"));
    let action = run.step(SyncEvent::ExistingSha(Some("old".to_string())));
    assert!(matches!(action, SyncAction::PutFile { ref request, .. } if request.sha.as_deref() == Some("old")));
    match run.step(SyncEvent::FilePut("c2".to_string())) {
        SyncAction::Finish(res) => {
            assert_eq!(res.files_changed, 2);
            assert_eq!(res.commit_sha.as_deref(), Some("c2"));
        }
        _ => panic!("expected the end of the run"),
    }
}

#[test]
fn sync_run_without_files_finishes_at_once() {
    let (_run, action) = GitSyncRun::start("main", Vec::new());
    match action {
        SyncAction::Finish(res) => {
            assert_eq!(res.files_changed, 0);
            assert!(res.commit_sha.is_none());
        }
        _ => panic!("expected the end of the run"),
    }
}

#[test]
fn github_statuses_and_failures() {
    assert_eq!(classify_github_status(404), GitHubReply::NotFound);
    assert_eq!(classify_github_status(200), GitHubReply::Success);
    assert_eq!(classify_github_status(201), GitHubReply::Success);
    assert_eq!(classify_github_status(500), GitHubReply::Failure);
    assert_eq!(classify_github_status(301), GitHubReply::Failure);
    assert_eq!(
        github_failure_message("put file", "422 Unprocessable Entity", "{}"),
        "GitHub put file failed: HTTP 422 Unprocessable Entity {}"
    );
}

#[test]
fn sync_outcomes_are_logged() {
    let ok = sync_outcome(Ok(GitSyncResult {
        files_changed: 3,
        commit_sha: Some("s".to_string()),
    }));
    assert_eq!(ok.status, "success");
    assert_eq!(ok.message, "Synced 3 file(s) to GitHub");
    assert_eq!(ok.files_changed, 3);
    let failed = sync_outcome(Err("boom".to_string()));
    assert_eq!(failed.status, "failed");
    assert_eq!(failed.message, "boom");
    assert_eq!(failed.files_changed, 0);
    assert!(failed.commit_sha.is_none());
}

#[test]
fn repository_bindings_need_url_space_and_token() {
    let good = GitRepoRecord {
        space_slug: "s".to_string(),
        github_url: "https://github.com/o/r".to_string(),
        branch: "main".to_string(),
        path_prefix: "docs/".to_string(),
    };
    assert!(require_valid_repo(Some(good.clone())).is_ok());
    let blank = GitRepoRecord {
        github_url: "  ".to_string(),
        ..good
    };
    assert!(matches!(require_valid_repo(Some(blank)), Err(AppError::NotFound(m)) if m == "Repository not found"));
    assert!(matches!(require_valid_repo(None), Err(AppError::NotFound(_))));
    assert!(matches!(
        require_github_token(None),
        Err(AppError::BadRequest(m)) if m == "GitHub sync is not configured: missing GITHUB_TOKEN"
    ));
    assert_eq!(require_github_token(Some("t".to_string())).unwrap(), "t");
}

#[test]
fn new_bindings_get_defaults() {
    let v = repo_create_values(&CreateRepoRequest {
        space_slug: "s".to_string(),
        github_url: "u".to_string(),
        branch: None,
        direction: None,
        auto_sync: None,
        path_prefix: None,
    });
    assert_eq!(v.branch, "main");
    assert_eq!(v.direction, "bidirectional");
    assert!(!v.auto_sync);
    assert_eq!(v.path_prefix, "docs/");
}

#[test]
fn https_and_ssh_forms_of_a_path_parse_alike() {
    for rest in ["owner/repo", "owner/repo.git", "a/b/c", "a", "owner/repo/", ""] {
        let https = parse_github_repo_url(&format!("https://github.com/{rest}"));
        let ssh = parse_github_repo_url(&format!("git@github.com:{rest}"));
        assert_eq!(https.clone().ok(), ssh.clone().ok(), "{rest}");
        assert_eq!(https.is_ok(), ssh.is_ok());
    }
    assert_eq!(
        parse_github_repo_url("https://github.com/a/b/c").unwrap_err(),
        parse_github_repo_url("git@github.com:a/b/c").unwrap_err()
    );
}

#[test]
fn git_suffix_and_surrounding_whitespace_change_nothing() {
    for u in ["https://github.com/owner/repo", "git@github.com:o/r", "https://gitlab.com/a/b", "https://github.com/a"] {
        let plain = parse_github_repo_url(u);
        assert_eq!(parse_github_repo_url(&format!("{u}.git")), plain);
        assert_eq!(parse_github_repo_url(&format!("  {u}\n")), plain);
    }
    let parsed = parse_github_repo_url("\t https://github.com/owner/repo.git \n").unwrap();
    assert_eq!(parsed.owner, "owner");
    assert_eq!(parsed.repo, "repo");
}
